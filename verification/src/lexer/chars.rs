//! Character classes and maximal runs of characters of one class.

use vstd::prelude::*;

verus! {

/// The sets of characters from which the lexical rules are built.
#[derive(Clone, Copy, Debug, PartialEq, Eq, Structural)]
pub enum CharClass {
    /// Space, tab, newline and form feed.
    Space,
    /// The ASCII letters.
    Letter,
    /// The ASCII letters and the underscore.
    Ident,
    /// The decimal digits.
    Digit,
    /// Everything but the newline: the body of a line comment.
    InLine,
    /// Everything but the newline and the double quote: the body of a string
    /// literal.
    InText,
}

impl CharClass {
    /// Whether `c` belongs to the class.
    pub open spec fn has(self, c: char) -> bool {
        match self {
            CharClass::Space => c == ' ' || c == '\t' || c == '\n' || c == '\x0c',
            CharClass::Letter => ('a' <= c && c <= 'z') || ('A' <= c && c <= 'Z'),
            CharClass::Ident => ('a' <= c && c <= 'z') || ('A' <= c && c <= 'Z') || c == '_',
            CharClass::Digit => '0' <= c && c <= '9',
            CharClass::InLine => c != '\n',
            CharClass::InText => c != '\n' && c != '"',
        }
    }

    /// Tests whether `c` belongs to the class.
    pub fn contains(self, c: char) -> (b: bool)
        ensures
            b == self.has(c),
    {
        match self {
            CharClass::Space => c == ' ' || c == '\t' || c == '\n' || c == '\x0c',
            CharClass::Letter => ('a' <= c && c <= 'z') || ('A' <= c && c <= 'Z'),
            CharClass::Ident => ('a' <= c && c <= 'z') || ('A' <= c && c <= 'Z') || c == '_',
            CharClass::Digit => '0' <= c && c <= '9',
            CharClass::InLine => c != '\n',
            CharClass::InText => c != '\n' && c != '"',
        }
    }
}

/// Whether the character at index `i` of `s` exists and is `c`.
pub open spec fn at(s: Seq<char>, i: int, c: char) -> bool {
    0 <= i < s.len() && s[i] == c
}

/// The length of the longest run of characters of `class` that starts at
/// index `i` of `s`; zero where `i` is no index of `s`.
pub open spec fn run(s: Seq<char>, i: int, class: CharClass) -> nat
    decreases s.len() - i,
{
    if 0 <= i < s.len() && class.has(s[i]) {
        1 + run(s, i + 1, class)
    } else {
        0
    }
}

/// A run ends inside `s`, holds only characters of its class, and cannot be
/// extended.
pub proof fn lemma_run_is_maximal(s: Seq<char>, i: int, class: CharClass)
    requires
        0 <= i <= s.len(),
    ensures
        i + run(s, i, class) <= s.len(),
        forall|j: int| i <= j < i + run(s, i, class) ==> class.has(#[trigger] s[j]),
        i + run(s, i, class) < s.len() ==> !class.has(s[i + run(s, i, class)]),
    decreases s.len() - i,
{
    if i < s.len() && class.has(s[i]) {
        lemma_run_is_maximal(s, i + 1, class);
    }
}

/// A stretch of characters of one class that cannot be extended is the run
/// that starts where it starts.
pub proof fn lemma_run_unique(s: Seq<char>, i: int, class: CharClass, n: nat)
    requires
        0 <= i,
        i + n <= s.len(),
        forall|j: int| i <= j < i + n ==> class.has(#[trigger] s[j]),
        i + n < s.len() ==> !class.has(s[i + n]),
    ensures
        run(s, i, class) == n,
    decreases n,
{
    if n > 0 {
        lemma_run_unique(s, i + 1, class, (n - 1) as nat);
    }
}

/// Finds the end of the run of `class` that starts at `from`.
pub fn run_end(chars: &Vec<char>, from: usize, class: CharClass) -> (end: usize)
    ensures
        end == from + run(chars@, from as int, class),
        from <= chars.len() ==> end <= chars.len(),
{
    let mut end: usize = from;
    while end < chars.len() && class.contains(chars[end])
        invariant
            from <= end,
            from <= chars.len() ==> end <= chars.len(),
            from > chars.len() ==> end == from,
            forall|j: int| from <= j < end ==> class.has(#[trigger] chars@[j]),
        decreases chars.len() - end,
    {
        end = end + 1;
    }
    proof {
        if from <= chars.len() {
            lemma_run_unique(chars@, from as int, class, (end - from) as nat);
        } else {
            assert(run(chars@, from as int, class) == 0);
        }
    }
    end
}

/// Tests whether the character at index `i` exists and is `c`.
pub fn is_at(chars: &Vec<char>, i: usize, c: char) -> (b: bool)
    ensures
        b == at(chars@, i as int, c),
{
    i < chars.len() && chars[i] == c
}

/// The characters of `text`, in order.
pub fn chars_of(text: &str) -> (chars: Vec<char>)
    ensures
        chars@ == text@,
{
    let mut chars: Vec<char> = Vec::new();
    for c in it: text.chars()
        invariant
            it.seq() == text@,
            chars@ == it.seq().take(it.index() as int),
    {
        chars.push(c);
    }
    chars
}

} // verus!
