//! Splitting a model's `<think>...</think>` reasoning block off its answer.

use vstd::prelude::*;
use crate::text::{
    chars_of, find_chars, first_index, seq_contains, str_eq, string_from_range, trim_chars,
    trimmed,
};

verus! {

/// The opening reasoning tag, `<think>`.
pub open spec fn think_open() -> Seq<char> {
    seq!['<', 't', 'h', 'i', 'n', 'k', '>']
}

/// The closing reasoning tag, `</think>`.
pub open spec fn think_close() -> Seq<char> {
    seq!['<', '/', 't', 'h', 'i', 'n', 'k', '>']
}

/// Both tags occur in `s`.
pub open spec fn has_think_block(s: Seq<char>) -> bool {
    seq_contains(s, think_open()) && seq_contains(s, think_close())
}

/// The first closing tag does not start inside or before the first opening
/// tag (the split slices `s` between them).
pub open spec fn think_tags_ordered(s: Seq<char>) -> bool {
    has_think_block(s) ==> first_index(s, think_close()) >= first_index(s, think_open())
        + think_open().len()
}

/// The answer that remains of `s`: with a think block, the text before the
/// first opening tag joined to the text after the first closing tag, trimmed;
/// otherwise `s` trimmed.
pub open spec fn answer_part(s: Seq<char>) -> Seq<char> {
    if has_think_block(s) {
        let a = first_index(s, think_open());
        let b = first_index(s, think_close());
        trimmed(s.take(a) + s.skip(b + think_close().len()))
    } else {
        trimmed(s)
    }
}

/// The reasoning of `s`: the trimmed text between the first opening tag and
/// the first closing tag.
pub open spec fn think_part(s: Seq<char>) -> Seq<char> {
    let a = first_index(s, think_open());
    let b = first_index(s, think_close());
    trimmed(s.subrange(a + think_open().len(), b))
}

/// The trimmed copy of `chars` as a `String`.
fn trimmed_string(chars: &Vec<char>) -> (r: String)
    ensures
        r@ == trimmed(chars@),
{
    let (a, b) = trim_chars(chars);
    if a < b {
        string_from_range(chars, a, b)
    } else {
        String::new()
    }
}

/// Models whose output may carry a `<think>` reasoning block.
pub trait ThinkTagHelper {
    /// Splits `prompt` into its answer and, when both tags occur, the
    /// reasoning between the first `<think>` and the first `</think>`.
    fn divide_think_tag(prompt: String) -> (r: (String, Option<String>))
        requires
            think_tags_ordered(prompt@),
        ensures
            r.0@ == answer_part(prompt@),
            r.1 is Some <==> has_think_block(prompt@),
            r.1 matches Some(t) ==> t@ == think_part(prompt@),
    {
        let chars = chars_of(prompt.as_str());
        let open = chars_of("<think>");
        let close = chars_of("</think>");
        proof {
            reveal_strlit("<think>");
            reveal_strlit("</think>");
            assert(open@ =~= think_open());
            assert(close@ =~= think_close());
        }
        match find_chars(&chars, &open) {
            Some(a) => match find_chars(&chars, &close) {
                Some(b) => {
                    let think = string_from_range(&chars, a + 7, b);
                    let think_chars = chars_of(think.as_str());
                    let think_trimmed = trimmed_string(&think_chars);
                    let mut rest: Vec<char> = Vec::new();
                    let mut i: usize = 0;
                    while i < a
                        invariant
                            a <= chars@.len(),
                            i <= a,
                            rest@ == chars@.take(i as int),
                        decreases a - i,
                    {
                        rest.push(chars[i]);
                        i = i + 1;
                        assert(chars@.take(i as int) =~= chars@.take(i - 1).push(chars@[i - 1]));
                    }
                    let n: usize = chars.len();
                    assert(b + 8 <= n);
                    let mut j: usize = b + 8;
                    while j < chars.len()
                        invariant
                            a <= chars@.len(),
                            b + 8 <= j <= chars@.len(),
                            rest@ == chars@.take(a as int) + chars@.subrange(b + 8, j as int),
                        decreases chars.len() - j,
                    {
                        rest.push(chars[j]);
                        j = j + 1;
                        assert(chars@.subrange(b + 8, j as int) =~= chars@.subrange(b + 8, j - 1).push(
                            chars@[j - 1],
                        ));
                    }
                    assert(chars@.subrange(b + 8, j as int) =~= chars@.skip(b + 8));
                    let answer = trimmed_string(&rest);
                    (answer, Some(think_trimmed))
                },
                None => (trimmed_string(&chars), None),
            },
            None => (trimmed_string(&chars), None),
        }
    }
}

/// Where one streamed piece of a generation goes.
#[derive(Debug, PartialEq, Eq)]
pub enum Routed {
    /// A bare think tag: not streamed out.
    Skip,
    Text(String),
    Reasoning(String),
}

/// Routes streamed pieces between answer and reasoning: a piece that is
/// exactly `<think>` or `</think>` opens or closes the reasoning; pieces in
/// between are reasoning.
#[derive(Debug)]
pub struct ThinkStreamRouter {
    extract: bool,
    in_reasoning: bool,
}

/// What becomes of piece `piece` (the last one when `done`), given whether
/// reasoning is extracted and open: the new open state and the routing.
pub open spec fn route_spec(extract: bool, open: bool, piece: Seq<char>, done: bool) -> (bool, Option<
    (bool, Seq<char>),
>) {
    if !extract {
        (open, Some((false, piece)))
    } else {
        let now_open = if piece == think_open() {
            true
        } else if piece == think_close() {
            false
        } else {
            open
        };
        let is_tag = piece == think_open() || piece == think_close();
        if is_tag && !done {
            (now_open, None)
        } else {
            (now_open, Some((now_open, piece)))
        }
    }
}

impl ThinkStreamRouter {
    /// Whether reasoning is extracted.
    pub closed spec fn extracting(&self) -> bool {
        self.extract
    }

    /// Whether a reasoning block is open.
    pub closed spec fn is_open(&self) -> bool {
        self.in_reasoning
    }

    /// A router; without extraction every piece is answer text.
    pub fn new(extract_reasoning: bool) -> (r: Self)
        ensures
            r.extracting() == extract_reasoning,
            !r.is_open(),
    {
        ThinkStreamRouter { extract: extract_reasoning, in_reasoning: false }
    }

    /// Route one piece (`done` on the last piece, which is never skipped).
    pub fn route(&mut self, piece: String, done: bool) -> (r: Routed)
        ensures
            final(self).extracting() == old(self).extracting(),
            final(self).is_open() == route_spec(old(self).extracting(), old(self).is_open(), piece@, done).0,
            match route_spec(old(self).extracting(), old(self).is_open(), piece@, done).1 {
                None => r is Skip,
                Some((true, t)) => r matches Routed::Reasoning(s) && s@ == t,
                Some((false, t)) => r matches Routed::Text(s) && s@ == t,
            },
    {
        if !self.extract {
            return Routed::Text(piece);
        }
        proof {
            reveal_strlit("<think>");
            reveal_strlit("</think>");
            assert("<think>"@ =~= think_open());
            assert("</think>"@ =~= think_close());
        }
        let is_open_tag = str_eq(piece.as_str(), "<think>");
        let is_close_tag = str_eq(piece.as_str(), "</think>");
        if is_open_tag {
            self.in_reasoning = true;
        } else if is_close_tag {
            self.in_reasoning = false;
        }
        if (is_open_tag || is_close_tag) && !done {
            return Routed::Skip;
        }
        if self.in_reasoning {
            Routed::Reasoning(piece)
        } else {
            Routed::Text(piece)
        }
    }
}

} // verus!
