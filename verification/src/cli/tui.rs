//! The terminal dashboard (`phs --tui`): its navigation state and what each key
//! does to it. Drawing and the clipboard belong to the program around it.

use vstd::prelude::*;
use vstd::utf8::{encode_scalar, encode_utf8};
use crate::text::{chars_of, extend_str, string_from_chars, sub_chars};

verus! {

/// The dashboard's state: the selected step, and the first code line shown.
#[derive(Debug, Clone, Copy, PartialEq, Eq, Structural)]
pub struct TuiState {
    pub selected: Option<usize>,
    pub code_scroll: u16,
}

/// A key the dashboard reacts to.
#[derive(Debug, Clone, Copy, PartialEq, Eq, Structural)]
pub enum TuiKey {
    /// `q` or Esc.
    Quit,
    /// Arrow down.
    Down,
    /// Arrow up.
    Up,
    /// `w` or Page Up.
    ScrollUp,
    /// `s` or Page Down.
    ScrollDown,
    /// `c`.
    Copy,
    /// Any other key.
    Other,
}

/// What the dashboard does after a key.
#[derive(Debug, Clone, Copy, PartialEq, Eq, Structural)]
pub enum TuiAction {
    /// Redraw and wait for the next key.
    Continue,
    /// Leave the dashboard.
    Quit,
    /// Copy the step with this index to the clipboard, then go on.
    Copy(usize),
}

/// The state the dashboard opens with: the first step selected when there is one.
pub fn tui_start(steps: usize) -> (r: TuiState)
    ensures
        r.selected == (if steps > 0 { Some(0usize) } else { None::<usize> }),
        r.code_scroll == 0,
{
    TuiState { selected: if steps > 0 { Some(0) } else { None }, code_scroll: 0 }
}

/// How a key changes the state: Down and Up move the selection cyclically
/// through the steps (to the first step when none is selected); the scroll keys
/// move the code by one line, never above the first line nor past the last; Copy
/// asks for the selected step when it exists.
pub open spec fn tui_step_spec(
    s: TuiState,
    key: TuiKey,
    steps: nat,
    code_lines: nat,
    r: (TuiState, TuiAction),
) -> bool {
    match key {
        TuiKey::Quit => r == (s, TuiAction::Quit),
        TuiKey::Down => r.1 == TuiAction::Continue && r.0.code_scroll == s.code_scroll && if steps
            == 0 {
            r.0.selected == s.selected
        } else {
            r.0.selected == Some(
                match s.selected {
                    Some(i) => ((i + 1) % (steps as int)) as usize,
                    None => 0usize,
                },
            )
        },
        TuiKey::Up => r.1 == TuiAction::Continue && r.0.code_scroll == s.code_scroll && if steps
            == 0 {
            r.0.selected == s.selected
        } else {
            r.0.selected == Some(
                match s.selected {
                    Some(i) => if i == 0 {
                        (steps - 1) as usize
                    } else {
                        (i - 1) as usize
                    },
                    None => 0usize,
                },
            )
        },
        TuiKey::ScrollUp => r.1 == TuiAction::Continue && r.0.selected == s.selected
            && r.0.code_scroll == if s.code_scroll > 0 {
            (s.code_scroll - 1) as u16
        } else {
            s.code_scroll
        },
        TuiKey::ScrollDown => r.1 == TuiAction::Continue && r.0.selected == s.selected
            && r.0.code_scroll == if s.code_scroll + 1 < code_lines {
            (s.code_scroll + 1) as u16
        } else {
            s.code_scroll
        },
        TuiKey::Copy => r.0 == s && r.1 == match s.selected {
            Some(i) => if i < steps {
                TuiAction::Copy(i)
            } else {
                TuiAction::Continue
            },
            None => TuiAction::Continue,
        },
        TuiKey::Other => r == (s, TuiAction::Continue),
    }
}

/// Applies a key to the dashboard's state; a selection always names a step, and
/// the scroll position stays within a `u16`.
pub fn tui_step(s: TuiState, key: TuiKey, steps: usize, code_lines: usize) -> (r: (
    TuiState,
    TuiAction,
))
    requires
        s.selected matches Some(i) ==> i < steps,
        s.code_scroll + 1 < code_lines ==> s.code_scroll < u16::MAX,
    ensures
        tui_step_spec(s, key, steps as nat, code_lines as nat, r),
{
    match key {
        TuiKey::Quit => (s, TuiAction::Quit),
        TuiKey::Down => {
            if steps == 0 {
                (s, TuiAction::Continue)
            } else {
                let next = match s.selected {
                    Some(i) => (i + 1) % steps,
                    None => 0,
                };
                (TuiState { selected: Some(next), code_scroll: s.code_scroll }, TuiAction::Continue)
            }
        },
        TuiKey::Up => {
            if steps == 0 {
                (s, TuiAction::Continue)
            } else {
                let prev = match s.selected {
                    Some(i) => if i == 0 {
                        steps - 1
                    } else {
                        i - 1
                    },
                    None => 0,
                };
                (TuiState { selected: Some(prev), code_scroll: s.code_scroll }, TuiAction::Continue)
            }
        },
        TuiKey::ScrollUp => {
            let c = if s.code_scroll > 0 {
                s.code_scroll - 1
            } else {
                s.code_scroll
            };
            (TuiState { selected: s.selected, code_scroll: c }, TuiAction::Continue)
        },
        TuiKey::ScrollDown => {
            let c = if (s.code_scroll as usize) + 1 < code_lines {
                s.code_scroll + 1
            } else {
                s.code_scroll
            };
            (TuiState { selected: s.selected, code_scroll: c }, TuiAction::Continue)
        },
        TuiKey::Copy => {
            let a = match s.selected {
                Some(i) => if i < steps {
                    TuiAction::Copy(i)
                } else {
                    TuiAction::Continue
                },
                None => TuiAction::Continue,
            };
            (s, a)
        },
        TuiKey::Other => (s, TuiAction::Continue),
    }
}

/// A value's text as the steps table shows it: text longer than 30 bytes of
/// UTF-8 is cut to its first 27 bytes, followed by `...`.
pub open spec fn value_cell_spec(s: Seq<char>, r: Seq<char>) -> bool {
    if encode_utf8(s).len() > 30 {
        exists|k: int|
            0 <= k <= s.len() && #[trigger] encode_utf8(s.take(k)).len() == 27 && r == s.take(k)
                + "..."@
    } else {
        r == s
    }
}

/// Encoding a concatenation concatenates the encodings.
proof fn lemma_encode_concat(a: Seq<char>, b: Seq<char>)
    ensures
        encode_utf8(a + b) == encode_utf8(a) + encode_utf8(b),
    decreases a.len(),
{
    if a.len() == 0 {
        assert(a + b =~= b);
        assert(encode_utf8(a) =~= Seq::<u8>::empty());
        assert(encode_utf8(a) + encode_utf8(b) =~= encode_utf8(b));
    } else {
        assert((a + b).drop_first() =~= a.drop_first() + b);
        assert((a + b)[0] == a[0]);
        lemma_encode_concat(a.drop_first(), b);
        assert(encode_utf8(a + b) =~= encode_scalar(a[0] as u32) + encode_utf8(a.drop_first() + b));
        assert(encode_utf8(a) =~= encode_scalar(a[0] as u32) + encode_utf8(a.drop_first()));
    }
}

/// Every character takes at least one byte.
proof fn lemma_scalar_nonempty(c: char)
    ensures
        1 <= encode_scalar(c as u32).len() <= 4,
{
}

/// One more character adds its own bytes to a prefix's encoding.
proof fn lemma_take_step(s: Seq<char>, i: int)
    requires
        0 <= i < s.len(),
    ensures
        encode_utf8(s.take(i + 1)).len() == encode_utf8(s.take(i)).len() + encode_scalar(
            s[i] as u32,
        ).len(),
{
    assert(s.take(i + 1) =~= s.take(i) + seq![s[i]]);
    lemma_encode_concat(s.take(i), seq![s[i]]);
    assert(seq![s[i]].drop_first() =~= Seq::<char>::empty());
    assert(encode_utf8(seq![s[i]]) =~= encode_scalar(s[i] as u32) + encode_utf8(Seq::<char>::empty()));
}

/// Longer prefixes take strictly more bytes.
proof fn lemma_take_grows(s: Seq<char>, j: int, i: int)
    requires
        0 <= j < i <= s.len(),
    ensures
        encode_utf8(s.take(j)).len() < encode_utf8(s.take(i)).len(),
    decreases i - j,
{
    lemma_take_step(s, i - 1);
    lemma_scalar_nonempty(s[i - 1]);
    if j < i - 1 {
        lemma_take_grows(s, j, i - 1);
    }
}

/// The number of bytes a character takes in UTF-8.
fn utf8_width(c: char) -> (r: usize)
    ensures
        r == encode_scalar(c as u32).len(),
{
    let v = c as u32;
    if v < 0x80 {
        1
    } else if v < 0x800 {
        2
    } else if v < 0x10000 {
        3
    } else {
        4
    }
}

/// Cuts a value's text for the steps table. The cut falls 27 bytes in, so on a
/// text longer than 30 bytes those 27 bytes must end on a character.
pub fn value_cell(text: &str) -> (r: String)
    requires
        encode_utf8(text@).len() > 30 ==> exists|k: int|
            0 <= k <= text@.len() && #[trigger] encode_utf8(text@.take(k)).len() == 27,
    ensures
        value_cell_spec(text@, r@),
{
    let v = chars_of(text);
    let ghost s = v@;
    let mut i: usize = 0;
    let mut bytes: usize = 0;
    assert(s.take(0) =~= Seq::<char>::empty());
    while i < v.len() && bytes <= 30
        invariant
            s == v@,
            i <= v.len(),
            bytes <= 34,
            bytes == encode_utf8(s.take(i as int)).len(),
        decreases v.len() - i,
    {
        proof {
            lemma_take_step(s, i as int);
        }
        bytes = bytes + utf8_width(v[i]);
        i = i + 1;
    }
    if bytes <= 30 {
        assert(s.take(i as int) =~= s);
        return string_from_chars(&v);
    }
    proof {
        if i < s.len() {
            lemma_take_grows(s, i as int, s.len() as int);
        }
        assert(s.take(s.len() as int) =~= s);
    }
    let mut j: usize = 0;
    let mut cut: usize = 0;
    while cut < 27
        invariant
            s == v@,
            j <= v.len(),
            cut == encode_utf8(s.take(j as int)).len(),
            cut <= 27,
            encode_utf8(s).len() > 30,
            exists|k: int| 0 <= k <= s.len() && #[trigger] encode_utf8(s.take(k)).len() == 27,
        decreases 27 - cut,
    {
        proof {
            let k = choose|k: int| 0 <= k <= s.len() && #[trigger] encode_utf8(s.take(k)).len() == 27;
            if k <= j {
                if k < j {
                    lemma_take_grows(s, k, j as int);
                }
            }
            assert(j < k);
            lemma_take_step(s, j as int);
            lemma_take_grows(s, j as int, k);
            if j + 1 < k {
                lemma_take_grows(s, j + 1, k);
            }
        }
        cut = cut + utf8_width(v[j]);
        j = j + 1;
    }
    let mut out = sub_chars(&v, 0, j);
    assert(out@ =~= s.take(j as int));
    extend_str(&mut out, "...");
    string_from_chars(&out)
}

/// The status line after a copy.
pub fn copied_status(text: &str) -> (r: String)
    ensures
        r@ == "Copied to clipboard: "@ + text@,
{
    let mut v: Vec<char> = Vec::new();
    extend_str(&mut v, "Copied to clipboard: ");
    extend_str(&mut v, text);
    string_from_chars(&v)
}


/// Down then Up brings the selection back to where it was.
pub proof fn lemma_down_then_up_restores(
    s: TuiState,
    steps: nat,
    lines: nat,
    r1: (TuiState, TuiAction),
    r2: (TuiState, TuiAction),
)
    requires
        0 < steps <= usize::MAX,
        s.selected matches Some(i) && i < steps,
        tui_step_spec(s, TuiKey::Down, steps, lines, r1),
        tui_step_spec(r1.0, TuiKey::Up, steps, lines, r2),
    ensures
        r2.0 == s,
{
    let i = s.selected->0;
    if i + 1 < steps {
        assert((i + 1) % (steps as int) == i + 1) by (nonlinear_arith)
            requires
                0 <= i + 1 < steps,
        ;
    } else {
        assert((i + 1) % (steps as int) == 0) by (nonlinear_arith)
            requires
                i + 1 == steps,
                steps > 0,
        ;
    }
}

/// Up then Down brings the selection back to where it was.
pub proof fn lemma_up_then_down_restores(
    s: TuiState,
    steps: nat,
    lines: nat,
    r1: (TuiState, TuiAction),
    r2: (TuiState, TuiAction),
)
    requires
        0 < steps <= usize::MAX,
        s.selected matches Some(i) && i < steps,
        tui_step_spec(s, TuiKey::Up, steps, lines, r1),
        tui_step_spec(r1.0, TuiKey::Down, steps, lines, r2),
    ensures
        r2.0 == s,
{
    let i = s.selected->0;
    if i == 0 {
        assert(((steps - 1) + 1) % (steps as int) == 0) by (nonlinear_arith)
            requires
                steps > 0,
        ;
    } else {
        assert(((i - 1) + 1) % (steps as int) == i) by (nonlinear_arith)
            requires
                0 < i < steps,
        ;
    }
}

} // verus!
