use vstd::prelude::*;

use crate::text::{push_char, push_chars, push_str};

verus! {

/// A literal value. A number is held as the decimal numeral it was written
/// as (digits, optionally a `.` and more digits); `to_text` prints it in
/// its natural decimal form.
#[derive(Debug, Clone)]
pub enum Object {
    Num(String),
    Str(String),
    Bool(bool),
    Nil,
}

/// A literal value as a mathematical value.
pub enum LiteralView {
    Num(Seq<char>),
    Str(Seq<char>),
    Bool(bool),
    Nil,
}

impl View for Object {
    type V = LiteralView;

    open spec fn view(&self) -> LiteralView {
        match self {
            Object::Num(s) => LiteralView::Num(s@),
            Object::Str(s) => LiteralView::Str(s@),
            Object::Bool(b) => LiteralView::Bool(*b),
            Object::Nil => LiteralView::Nil,
        }
    }
}

/// Index of the first `.` in `s` at or after `i`, or the length of `s`.
pub open spec fn dot_index(s: Seq<char>, i: int) -> int
    decreases s.len() - i,
{
    if i < 0 || i >= s.len() {
        s.len() as int
    } else if s[i] == '.' {
        i
    } else {
        dot_index(s, i + 1)
    }
}

/// Start of `s[from..to]` once its leading zeros are dropped, keeping at
/// least one character.
pub open spec fn lead_start(s: Seq<char>, from: int, to: int) -> int
    decreases to - from,
{
    if from + 1 < to && s[from] == '0' {
        lead_start(s, from + 1, to)
    } else {
        from
    }
}

/// End of `s[from..to]` once its trailing zeros are dropped.
pub open spec fn trail_end(s: Seq<char>, from: int, to: int) -> int
    decreases to - from,
{
    if from < to && s[to - 1] == '0' {
        trail_end(s, from, to - 1)
    } else {
        to
    }
}

/// The natural decimal form of a numeral: no leading zeros in the integer
/// part (but one), no trailing zeros in the fraction, and no `.` when the
/// fraction is zero.
pub open spec fn numeral_text(s: Seq<char>) -> Seq<char> {
    let d = dot_index(s, 0);
    let int_part = s.subrange(lead_start(s, 0, d), d);
    if d < s.len() {
        let e = trail_end(s, d + 1, s.len() as int);
        if e > d + 1 {
            int_part.push('.') + s.subrange(d + 1, e)
        } else {
            int_part
        }
    } else {
        int_part
    }
}

/// The canonical text of a literal value.
pub open spec fn literal_text(v: LiteralView) -> Seq<char> {
    match v {
        LiteralView::Num(s) => numeral_text(s),
        LiteralView::Str(s) => seq!['"'] + s + seq!['"'],
        LiteralView::Bool(b) => if b { seq!['t', 'r', 'u', 'e'] } else { seq!['f', 'a', 'l', 's', 'e'] },
        LiteralView::Nil => seq!['n', 'i', 'l'],
    }
}

fn find_dot(s: &Vec<char>) -> (d: usize)
    ensures
        d == dot_index(s@, 0),
        d <= s@.len(),
{
    let mut i: usize = 0;
    while i < s.len()
        invariant
            i <= s@.len(),
            dot_index(s@, i as int) == dot_index(s@, 0),
        decreases s@.len() - i,
    {
        if s[i] == '.' {
            return i;
        }
        i = i + 1;
    }
    i
}

/// Appends the natural decimal form of the numeral `s` to `out`.
fn push_numeral(out: &mut String, s: &Vec<char>)
    ensures
        final(out)@ == old(out)@ + numeral_text(s@),
{
    let d = find_dot(s);
    let mut a: usize = 0;
    while a + 1 < d && s[a] == '0'
        invariant
            a < d || a == 0,
            d <= s@.len(),
            d == dot_index(s@, 0),
            lead_start(s@, a as int, d as int) == lead_start(s@, 0, d as int),
        decreases d - a,
    {
        a = a + 1;
    }
    assert(lead_start(s@, a as int, d as int) == a);
    push_chars(out, s, a, d);
    if d < s.len() {
        let mut e: usize = s.len();
        while e > d + 1 && s[e - 1] == '0'
            invariant
                d + 1 <= e <= s@.len(),
                trail_end(s@, d + 1, e as int) == trail_end(s@, d + 1, s@.len() as int),
            decreases e,
        {
            e = e - 1;
        }
        assert(trail_end(s@, d + 1, e as int) == e);
        if e > d + 1 {
            push_char(out, '.');
            push_chars(out, s, d + 1, e);
        }
    }
    assert(final(out)@ =~= old(out)@ + numeral_text(s@));
}

impl Object {
    /// A copy of this value with the same view.
    pub fn copy(&self) -> (r: Object)
        ensures
            r@ == self@,
    {
        match self {
            Object::Num(s) => Object::Num(s.clone()),
            Object::Str(s) => Object::Str(s.clone()),
            Object::Bool(b) => Object::Bool(*b),
            Object::Nil => Object::Nil,
        }
    }

    /// Appends the canonical text of this value to `out`.
    pub fn push_text(&self, out: &mut String)
        ensures
            final(out)@ == old(out)@ + literal_text(self@),
    {
        match self {
            Object::Num(s) => {
                let cs = crate::text::chars_of(s.as_str());
                push_numeral(out, &cs);
            },
            Object::Str(s) => {
                push_char(out, '"');
                push_str(out, s.as_str());
                push_char(out, '"');
                assert(final(out)@ =~= old(out)@ + literal_text(self@));
            },
            Object::Bool(b) => {
                if *b {
                    push_char(out, 't');
                    push_char(out, 'r');
                    push_char(out, 'u');
                    push_char(out, 'e');
                } else {
                    push_char(out, 'f');
                    push_char(out, 'a');
                    push_char(out, 'l');
                    push_char(out, 's');
                    push_char(out, 'e');
                }
                assert(final(out)@ =~= old(out)@ + literal_text(self@));
            },
            Object::Nil => {
                push_char(out, 'n');
                push_char(out, 'i');
                push_char(out, 'l');
                assert(final(out)@ =~= old(out)@ + literal_text(self@));
            },
        }
    }

    /// The canonical text of this value: a number in its natural decimal
    /// form, a string between double quotes, `true`, `false` or `nil`.
    pub fn to_text(&self) -> (r: String)
        ensures
            r@ == literal_text(self@),
    {
        let mut r = String::new();
        self.push_text(&mut r);
        assert(r@ =~= literal_text(self@));
        r
    }
}

} // verus!
