//! The user's `physure.conf` (the report language) and the report's labels in
//! each language.

use vstd::prelude::*;
use crate::text::{
    to_lowercase, unicode_lower, chars_eq_str, chars_of, has_prefix, split_once, split_once_spec, string_from_chars, trim,
    trim_end_matches, trim_end_matches_spec, trim_spec, trim_start_matches, trim_start_matches_spec,
};
use crate::words::{split_chars, split_spec, views};

verus! {

/// `s` with every leading and trailing `c` removed (`str::trim_matches`).
pub open spec fn trim_matches_spec(s: Seq<char>, c: char) -> Seq<char> {
    trim_end_matches_spec(trim_start_matches_spec(s, seq![c]), seq![c])
}

/// The language a setting line names, when it is a `lang` or `language` setting:
/// the line trimmed, not a `#` or `;` comment, split at the first `=`; the key
/// trimmed and lower-cased; the value trimmed, stripped of `"` then `'` quotes,
/// and lower-cased.
pub open spec fn lang_setting(line: Seq<char>) -> Option<Seq<char>> {
    let t = trim_spec(line);
    if t.len() == 0 || t[0] == '#' || t[0] == ';' {
        None
    } else {
        match split_once_spec(t, '=') {
            Some((k, v)) => {
                let key = unicode_lower(trim_spec(k));
                if key == "lang"@ || key == "language"@ {
                    Some(unicode_lower(trim_matches_spec(trim_matches_spec(trim_spec(v), '"'), '\'')))
                } else {
                    None
                }
            },
            None => None,
        }
    }
}

/// The language the last `lang`/`language` line of the file sets, `en` when none does.
pub open spec fn conf_lang_spec(lines: Seq<Seq<char>>) -> Seq<char>
    decreases lines.len(),
{
    if lines.len() == 0 {
        "en"@
    } else {
        match lang_setting(lines.last()) {
            Some(l) => l,
            None => conf_lang_spec(lines.drop_last()),
        }
    }
}

/// The CLI's settings.
#[derive(Debug, Clone)]
pub struct PhysureConfig {
    pub lang: String,
}

/// A report's language.
#[derive(Debug, Clone, Copy, PartialEq, Eq, Structural)]
pub enum ReportLanguage {
    English,
    Spanish,
    French,
    German,
}

/// Which labels a language setting selects: `es`, `es-es` and `es-mx` are
/// Spanish, `fr` French, `de` German, anything else English.
pub open spec fn report_language(lang: Seq<char>) -> ReportLanguage {
    if lang == "es"@ || lang == "es-es"@ || lang == "es-mx"@ {
        ReportLanguage::Spanish
    } else if lang == "fr"@ {
        ReportLanguage::French
    } else if lang == "de"@ {
        ReportLanguage::German
    } else {
        ReportLanguage::English
    }
}

/// The labels of a report.
#[derive(Debug, Clone)]
pub struct I18nLabels {
    pub abstract_title: String,
    pub sec_evaluations: String,
    pub sec_appendix: String,
    pub fig_prefix: String,
    pub footer_engine: String,
    pub html_lang: String,
}

/// The labels of each language.
pub open spec fn labels_spec(l: ReportLanguage, x: I18nLabels) -> bool {
    match l {
        ReportLanguage::Spanish => x.abstract_title@ == "Resumen / Abstract"@ && x.sec_evaluations@
            == "1. Evaluaciones Físicas y Ecuaciones"@ && x.sec_appendix@
            == "2. Apéndice A: Código Fuente PHS"@ && x.fig_prefix@ == "Figura"@
            && x.footer_engine@ == "Motor Physure Core"@ && x.html_lang@ == "es"@,
        ReportLanguage::French => x.abstract_title@ == "Résumé / Abstract"@ && x.sec_evaluations@
            == "1. Évaluations Physiques et Équations"@ && x.sec_appendix@
            == "2. Annexe A : Code Source PHS"@ && x.fig_prefix@ == "Figure"@ && x.footer_engine@
            == "Moteur Physure Core"@ && x.html_lang@ == "fr"@,
        ReportLanguage::German => x.abstract_title@ == "Zusammenfassung / Abstract"@
            && x.sec_evaluations@ == "1. Physikalische Auswertungen und Gleichungen"@
            && x.sec_appendix@ == "2. Anhang A: PHS-Quellcode"@ && x.fig_prefix@ == "Abbildung"@
            && x.footer_engine@ == "Physure Core Engine"@ && x.html_lang@ == "de"@,
        ReportLanguage::English => x.abstract_title@ == "Abstract"@ && x.sec_evaluations@
            == "1. Physical Evaluations and Equations"@ && x.sec_appendix@
            == "2. Appendix A: PHS Source Code"@ && x.fig_prefix@ == "Figure"@ && x.footer_engine@
            == "Physure Core Engine"@ && x.html_lang@ == "en"@,
    }
}

/// The setting a line makes, if any.
fn line_lang(line: &Vec<char>) -> (r: Option<String>)
    ensures
        r matches Some(l) ==> lang_setting(line@) == Some(l@),
        r is None ==> lang_setting(line@) is None,
{
    let t = trim(line);
    if t.len() == 0 || t[0] == '#' || t[0] == ';' {
        return None;
    }
    match split_once(&t, '=') {
        Some((k, v)) => {
            let key = to_lowercase(string_from_chars(&trim(&k)).as_str());
            let kv = chars_of(key.as_str());
            if chars_eq_str(&kv, "lang") || chars_eq_str(&kv, "language") {
                let dq = seq_of('"');
                let sq = seq_of('\'');
                let a = trim(&v);
                let b = trim_end_matches(&trim_start_matches(&a, &dq), &dq);
                let c = trim_end_matches(&trim_start_matches(&b, &sq), &sq);
                Some(to_lowercase(string_from_chars(&c).as_str()))
            } else {
                None
            }
        },
        None => None,
    }
}

/// A one-character vector.
fn seq_of(c: char) -> (r: Vec<char>)
    ensures
        r@ == seq![c],
{
    let mut r: Vec<char> = Vec::new();
    r.push(c);
    assert(r@ =~= seq![c]);
    r
}

impl PhysureConfig {
    /// The settings a configuration file's text makes; `content` is `None` when
    /// no configuration file was found, which leaves the language English.
    pub fn from_conf(content: Option<&str>) -> (r: Self)
        ensures
            r.lang@ == (match content {
                Some(c) => conf_lang_spec(split_spec(c@, '\n')),
                None => "en"@,
            }),
    {
        match content {
            None => PhysureConfig { lang: String::from_str("en") },
            Some(c) => {
                let lines = split_chars(&chars_of(c), '\n');
                let ghost ls = views(lines@);
                let mut lang = String::from_str("en");
                let mut i: usize = 0;
                assert(ls.subrange(0, 0) =~= Seq::<Seq<char>>::empty());
                while i < lines.len()
                    invariant
                        i <= lines.len(),
                        ls == views(lines@),
                        lang@ == conf_lang_spec(ls.subrange(0, i as int)),
                    decreases lines.len() - i,
                {
                    let ghost next = ls.subrange(0, i + 1);
                    assert(next.drop_last() =~= ls.subrange(0, i as int));
                    assert(next.last() == lines@[i as int]@);
                    if let Some(l) = line_lang(&lines[i]) {
                        lang = l;
                    }
                    i = i + 1;
                }
                assert(ls.subrange(0, lines.len() as int) =~= ls);
                PhysureConfig { lang }
            },
        }
    }

    /// The labels of the configured language.
    pub fn i18n(&self) -> (r: I18nLabels)
        ensures
            labels_spec(report_language(self.lang@), r),
    {
        let l = chars_of(self.lang.as_str());
        if chars_eq_str(&l, "es") || chars_eq_str(&l, "es-es") || chars_eq_str(&l, "es-mx") {
            I18nLabels {
                abstract_title: String::from_str("Resumen / Abstract"),
                sec_evaluations: String::from_str("1. Evaluaciones Físicas y Ecuaciones"),
                sec_appendix: String::from_str("2. Apéndice A: Código Fuente PHS"),
                fig_prefix: String::from_str("Figura"),
                footer_engine: String::from_str("Motor Physure Core"),
                html_lang: String::from_str("es"),
            }
        } else if chars_eq_str(&l, "fr") {
            I18nLabels {
                abstract_title: String::from_str("Résumé / Abstract"),
                sec_evaluations: String::from_str("1. Évaluations Physiques et Équations"),
                sec_appendix: String::from_str("2. Annexe A : Code Source PHS"),
                fig_prefix: String::from_str("Figure"),
                footer_engine: String::from_str("Moteur Physure Core"),
                html_lang: String::from_str("fr"),
            }
        } else if chars_eq_str(&l, "de") {
            I18nLabels {
                abstract_title: String::from_str("Zusammenfassung / Abstract"),
                sec_evaluations: String::from_str("1. Physikalische Auswertungen und Gleichungen"),
                sec_appendix: String::from_str("2. Anhang A: PHS-Quellcode"),
                fig_prefix: String::from_str("Abbildung"),
                footer_engine: String::from_str("Physure Core Engine"),
                html_lang: String::from_str("de"),
            }
        } else {
            I18nLabels {
                abstract_title: String::from_str("Abstract"),
                sec_evaluations: String::from_str("1. Physical Evaluations and Equations"),
                sec_appendix: String::from_str("2. Appendix A: PHS Source Code"),
                fig_prefix: String::from_str("Figure"),
                footer_engine: String::from_str("Physure Core Engine"),
                html_lang: String::from_str("en"),
            }
        }
    }
}

} // verus!
