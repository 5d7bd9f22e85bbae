use vstd::prelude::*;
use vstd::std_specs::iter::IteratorSpec;
use vstd::string::*;

verus! {

broadcast use {next_postcondition, axiom_spec_iter};

/// Whitespace as Unicode's `White_Space` property lists it.
pub open spec fn is_ws(c: char) -> bool {
    let n = c as u32;
    (9 <= n <= 13) || n == 32 || n == 0x85 || n == 0xa0 || n == 0x1680 || (0x2000 <= n <= 0x200a)
        || n == 0x2028 || n == 0x2029 || n == 0x202f || n == 0x205f || n == 0x3000
}

/// First position at or after `i` that does not hold whitespace.
pub open spec fn skip_ws(s: Seq<char>, i: int) -> int
    decreases s.len() - i,
{
    if 0 <= i < s.len() && is_ws(s[i]) {
        skip_ws(s, i + 1)
    } else {
        i
    }
}

/// First position at or after `i` that holds an ASCII space, or the end.
pub open spec fn word_end(s: Seq<char>, i: int) -> int
    decreases s.len() - i,
{
    if 0 <= i < s.len() && s[i] != ' ' {
        word_end(s, i + 1)
    } else {
        i
    }
}

/// Whether a backslash at `i` escapes the character after it.
pub open spec fn escapes(s: Seq<char>, i: int) -> bool {
    0 <= i && i + 1 < s.len() && s[i] == '\\' && (s[i + 1] == '"' || s[i + 1] == '\\')
}

/// The unescaped body of a quoted segment whose text starts at `i`, and the
/// position just after its closing quote (the end, if it is never closed).
pub open spec fn quoted(s: Seq<char>, i: int) -> (Seq<char>, int)
    decreases s.len() - i,
{
    if !(0 <= i < s.len()) {
        (Seq::empty(), s.len() as int)
    } else if s[i] == '"' {
        (Seq::empty(), i + 1)
    } else if escapes(s, i) {
        let r = quoted(s, i + 2);
        (seq![s[i + 1]] + r.0, r.1)
    } else {
        let r = quoted(s, i + 1);
        (seq![s[i]] + r.0, r.1)
    }
}

/// The token that starts at `i`, and where the next one starts.
pub open spec fn next_token(s: Seq<char>, i: int) -> (Seq<char>, int) {
    if s[i] == '"' {
        let q = quoted(s, i + 1);
        (q.0, skip_ws(s, q.1))
    } else {
        let e = word_end(s, i);
        (s.subrange(i, e), skip_ws(s, e))
    }
}

/// All tokens of `s` from position `i` on.
pub open spec fn tokens_from(s: Seq<char>, i: int) -> Seq<Seq<char>>
    decreases s.len() - i,
    via tokens_from_decreases
{
    if 0 <= i < s.len() {
        let t = next_token(s, i);
        seq![t.0] + tokens_from(s, t.1)
    } else {
        Seq::empty()
    }
}

#[via_fn]
proof fn tokens_from_decreases(s: Seq<char>, i: int) {
    if 0 <= i < s.len() {
        lemma_next_token_advances(s, i);
    }
}

/// The tokens of a whole line.
pub open spec fn tokenize(s: Seq<char>) -> Seq<Seq<char>> {
    tokens_from(s, skip_ws(s, 0))
}

proof fn lemma_skip_ws_all(s: Seq<char>, i: int)
    requires
        0 <= i <= s.len(),
        forall|j: int| 0 <= j < s.len() ==> is_ws(#[trigger] s[j]),
    ensures
        skip_ws(s, i) == s.len(),
    decreases s.len() - i,
{
    if i < s.len() {
        lemma_skip_ws_all(s, i + 1);
    }
}

/// A line that is empty or holds only whitespace has no tokens.
pub proof fn lemma_blank_has_no_tokens(s: Seq<char>)
    requires
        forall|j: int| 0 <= j < s.len() ==> is_ws(#[trigger] s[j]),
    ensures
        tokenize(s).len() == 0,
{
    lemma_skip_ws_all(s, 0);
}

proof fn lemma_skip_ws_bounds(s: Seq<char>, i: int)
    requires
        0 <= i <= s.len(),
    ensures
        i <= skip_ws(s, i) <= s.len(),
        skip_ws(s, i) < s.len() ==> !is_ws(s[skip_ws(s, i)]),
        skip_ws(s, skip_ws(s, i)) == skip_ws(s, i),
    decreases s.len() - i,
{
    if i < s.len() && is_ws(s[i]) {
        lemma_skip_ws_bounds(s, i + 1);
    }
}

proof fn lemma_word_end_bounds(s: Seq<char>, i: int)
    requires
        0 <= i <= s.len(),
    ensures
        i <= word_end(s, i) <= s.len(),
    decreases s.len() - i,
{
    if i < s.len() && s[i] != ' ' {
        lemma_word_end_bounds(s, i + 1);
    }
}

proof fn lemma_quoted_bounds(s: Seq<char>, i: int)
    requires
        0 <= i <= s.len(),
    ensures
        i <= quoted(s, i).1 <= s.len(),
    decreases s.len() - i,
{
    if i < s.len() && s[i] != '"' {
        if escapes(s, i) {
            lemma_quoted_bounds(s, i + 2);
        } else {
            lemma_quoted_bounds(s, i + 1);
        }
    }
}

proof fn lemma_next_token_advances(s: Seq<char>, i: int)
    requires
        0 <= i < s.len(),
    ensures
        i < next_token(s, i).1 <= s.len(),
{
    if s[i] == '"' {
        lemma_quoted_bounds(s, i + 1);
        lemma_skip_ws_bounds(s, quoted(s, i + 1).1);
    } else {
        lemma_word_end_bounds(s, i);
        let e = word_end(s, i);
        lemma_skip_ws_bounds(s, e);
        if s[i] != ' ' {
            lemma_word_end_bounds(s, i + 1);
        }
        if e == i {
            assert((' ' as u32) == 32);
            assert(is_ws(s[i]));
            lemma_skip_ws_bounds(s, i + 1);
        }
    }
}

/// A command handler: the function that runs a command on its arguments.
pub struct CmdFn<F>(pub F);

/// The arguments of a command line, handed out one token at a time.
///
/// A token is a run of characters up to the next ASCII space, or, where it
/// starts with `"`, the body of a quoted segment in which `\"` and `\\` stand
/// for `"` and `\`. Whitespace between tokens is skipped.
pub struct Args<'a> {
    text: &'a str,
    chars: Vec<char>,
    pos: usize,
}

impl<'a> View for Args<'a> {
    type V = Seq<Seq<char>>;

    /// The tokens not handed out yet.
    closed spec fn view(&self) -> Seq<Seq<char>> {
        tokens_from(self.chars@, self.pos as int)
    }
}

fn is_ws_char(c: char) -> (r: bool)
    ensures
        r == is_ws(c),
{
    let n = c as u32;
    (9 <= n && n <= 13) || n == 32 || n == 0x85 || n == 0xa0 || n == 0x1680 || (0x2000 <= n && n
        <= 0x200a) || n == 0x2028 || n == 0x2029 || n == 0x202f || n == 0x205f || n == 0x3000
}

fn skip_ws_from(s: &Vec<char>, i: usize) -> (r: usize)
    requires
        i <= s@.len(),
    ensures
        r == skip_ws(s@, i as int),
{
    let mut j: usize = i;
    while j < s.len() && is_ws_char(s[j])
        invariant
            i <= j <= s@.len(),
            skip_ws(s@, j as int) == skip_ws(s@, i as int),
        decreases s@.len() - j,
    {
        j = j + 1;
    }
    j
}

fn word_end_from(s: &Vec<char>, i: usize) -> (r: usize)
    requires
        i <= s@.len(),
    ensures
        r == word_end(s@, i as int),
{
    let mut j: usize = i;
    while j < s.len() && s[j] != ' '
        invariant
            i <= j <= s@.len(),
            word_end(s@, j as int) == word_end(s@, i as int),
        decreases s@.len() - j,
    {
        j = j + 1;
    }
    j
}

impl<'a> Args<'a> {
    /// The struct's invariant: the cursor stands at the start of a token, or
    /// at the end.
    pub closed spec fn wf(&self) -> bool {
        &&& self.chars@ == self.text@
        &&& self.pos <= self.chars@.len()
        &&& skip_ws(self.chars@, self.pos as int) == self.pos
    }

    /// The arguments of `message`.
    pub fn new(message: &'a str) -> (r: Args<'a>)
        ensures
            r.wf(),
            r@ == tokenize(message@),
    {
        let mut it = message.chars();
        let mut chars: Vec<char> = Vec::new();
        loop
            invariant
                chars@ + it.remaining() == message@,
            ensures
                chars@ == message@,
            decreases message@.len() - chars@.len(),
        {
            match it.next() {
                Some(c) => {
                    chars.push(c);
                },
                None => {
                    assert(it.remaining().len() == 0);
                    assert(chars@ =~= message@);
                    break ;
                },
            }
        }
        let pos = skip_ws_from(&chars, 0);
        proof {
            lemma_skip_ws_bounds(chars@, 0);
        }
        Args { text: message, chars, pos }
    }

    /// The body of the quoted segment whose text starts at `start`, and the
    /// position after its closing quote.
    fn scan_quoted(&self, start: usize) -> (r: (String, usize))
        requires
            self.wf(),
            start <= self.chars@.len(),
        ensures
            r.0@ == quoted(self.chars@, start as int).0,
            r.1 == quoted(self.chars@, start as int).1,
    {
        let ghost s = self.chars@;
        let len = self.chars.len();
        let mut out = String::new();
        let mut from: usize = start;
        let mut j: usize = start;
        loop
            invariant
                self.wf(),
                s == self.chars@,
                len == s.len(),
                start <= from <= j <= len,
                out@ + s.subrange(from as int, j as int) + quoted(s, j as int).0 == quoted(
                    s,
                    start as int,
                ).0,
                quoted(s, j as int).1 == quoted(s, start as int).1,
            decreases len - j,
        {
            if j >= len {
                out.append(self.text.substring_char(from, len));
                assert(quoted(s, j as int).0 =~= Seq::empty());
                assert(out@ =~= quoted(s, start as int).0);
                return (out, len);
            }
            let c = self.chars[j];
            if c == '"' {
                out.append(self.text.substring_char(from, j));
                assert(out@ =~= quoted(s, start as int).0);
                return (out, j + 1);
            }
            if c == '\\' && j + 1 < len && (self.chars[j + 1] == '"' || self.chars[j + 1] == '\\') {
                let ghost prev = out@;
                out.append(self.text.substring_char(from, j));
                assert(s.subrange(j as int + 1, j as int + 2) =~= seq![s[j as int + 1]]);
                assert(prev + s.subrange(from as int, j as int) + quoted(s, j as int).0 =~= out@
                    + s.subrange(j as int + 1, j as int + 2) + quoted(s, j as int + 2).0);
                from = j + 1;
                j = j + 2;
            } else {
                assert(out@ + s.subrange(from as int, j as int) + quoted(s, j as int).0 =~= out@
                    + s.subrange(from as int, j as int + 1) + quoted(s, j as int + 1).0);
                j = j + 1;
            }
        }
    }

    /// The next token, or `None` once all are handed out.
    pub fn next(&mut self) -> (r: Option<String>)
        requires
            old(self).wf(),
        ensures
            final(self).wf(),
            old(self)@.len() == 0 ==> r is None && final(self)@ == old(self)@,
            old(self)@.len() > 0 ==> r is Some && r->0@ == old(self)@[0] && final(self)@ == old(
                self,
            )@.drop_first(),
    {
        let ghost s = self.chars@;
        let ghost i = self.pos as int;
        let len = self.chars.len();
        if self.pos >= len {
            return None;
        }
        proof {
            lemma_next_token_advances(s, i);
        }
        let tok;
        let end;
        if self.chars[self.pos] == '"' {
            proof {
                lemma_quoted_bounds(s, i + 1);
            }
            let q = self.scan_quoted(self.pos + 1);
            tok = q.0;
            end = q.1;
        } else {
            proof {
                lemma_word_end_bounds(s, i);
            }
            let e = word_end_from(&self.chars, self.pos);
            tok = self.text.substring_char(self.pos, e).to_owned();
            end = e;
        }
        proof {
            lemma_skip_ws_bounds(s, end as int);
        }
        self.pos = skip_ws_from(&self.chars, end);
        assert(tok@ == next_token(s, i).0);
        assert(tokens_from(s, i) =~= seq![tok@] + tokens_from(s, self.pos as int));
        Some(tok)
    }
}

} // verus!
