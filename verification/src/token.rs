//! The bearer token: trimming and validating the text read from the token file.

use vstd::prelude::*;

verus! {

/// Whitespace for the purpose of trimming the token file's content: the
/// characters with the Unicode `White_Space` property.
pub open spec fn is_space(c: char) -> bool {
    ||| c == ' '
    ||| c == '\t'
    ||| c == '\n'
    ||| c == '\r'
    ||| c == '\u{b}'
    ||| c == '\u{c}'
    ||| c == '\u{85}'
    ||| c == '\u{a0}'
    ||| c == '\u{1680}'
    ||| (0x2000 <= c as u32 && c as u32 <= 0x200a)
    ||| c == '\u{2028}'
    ||| c == '\u{2029}'
    ||| c == '\u{202f}'
    ||| c == '\u{205f}'
    ||| c == '\u{3000}'
}

/// Decides `is_space` on a concrete character.
pub fn is_space_char(c: char) -> (r: bool)
    ensures
        r == is_space(c),
{
    c == ' ' || c == '\t' || c == '\n' || c == '\r' || c == '\u{b}' || c == '\u{c}'
        || c == '\u{85}' || c == '\u{a0}' || c == '\u{1680}'
        || (0x2000 <= c as u32 && c as u32 <= 0x200a)
        || c == '\u{2028}' || c == '\u{2029}' || c == '\u{202f}' || c == '\u{205f}'
        || c == '\u{3000}'
}

/// The text with its leading whitespace removed.
pub open spec fn trim_start_spec(s: Seq<char>) -> Seq<char>
    decreases s.len(),
{
    if s.len() > 0 && is_space(s[0]) {
        trim_start_spec(s.drop_first())
    } else {
        s
    }
}

/// The text with its trailing whitespace removed.
pub open spec fn trim_end_spec(s: Seq<char>) -> Seq<char>
    decreases s.len(),
{
    if s.len() > 0 && is_space(s.last()) {
        trim_end_spec(s.drop_last())
    } else {
        s
    }
}

/// The text with leading and trailing whitespace removed.
pub open spec fn trim_spec(s: Seq<char>) -> Seq<char> {
    trim_end_spec(trim_start_spec(s))
}

/// When the first `k` characters are whitespace and the `k`-th is not (or the
/// text ends there), trimming the front keeps exactly the suffix from `k` on.
proof fn lemma_trim_start_prefix(s: Seq<char>, k: int)
    requires
        0 <= k <= s.len(),
        forall|j: int| 0 <= j < k ==> is_space(s[j]),
        k < s.len() ==> !is_space(s[k]),
    ensures
        trim_start_spec(s) == s.subrange(k, s.len() as int),
    decreases k,
{
    if k == 0 {
        assert(s.subrange(0, s.len() as int) =~= s);
    } else {
        let t = s.drop_first();
        assert(forall|j: int| 0 <= j < k - 1 ==> is_space(t[j]));
        lemma_trim_start_prefix(t, k - 1);
        assert(t.subrange(k - 1, t.len() as int) =~= s.subrange(k, s.len() as int));
    }
}

/// When every character from `k` on is whitespace and the one before `k` is
/// not (or `k` is zero), trimming the back keeps exactly the first `k`.
proof fn lemma_trim_end_suffix(s: Seq<char>, k: int)
    requires
        0 <= k <= s.len(),
        forall|j: int| k <= j < s.len() ==> is_space(s[j]),
        k > 0 ==> !is_space(s[k - 1]),
    ensures
        trim_end_spec(s) == s.subrange(0, k),
    decreases s.len() - k,
{
    if k == s.len() {
        assert(s.subrange(0, k) =~= s);
    } else {
        let t = s.drop_last();
        assert(forall|j: int| k <= j < t.len() ==> is_space(t[j]));
        lemma_trim_end_suffix(t, k);
        assert(t.subrange(0, k) =~= s.subrange(0, k));
    }
}

/// A bearer credential: the trimmed, non-empty content of the token file,
/// sent as the value of the auth header on every request.
pub struct Token {
    text: String,
}

impl View for Token {
    type V = Seq<char>;

    closed spec fn view(&self) -> Seq<char> {
        self.text@
    }
}

impl Token {
    /// A well-formed token is non-empty and carries no surrounding whitespace.
    pub open spec fn wf(&self) -> bool {
        &&& self@.len() > 0
        &&& !is_space(self@[0])
        &&& !is_space(self@[self@.len() - 1])
    }

    /// The token text, as it goes into the auth header.
    pub fn text(&self) -> (r: &String)
        ensures
            r@ == self@,
    {
        &self.text
    }
}

/// The fixed path of the token file, relative to the working directory.
pub fn token_file_path() -> (r: String)
    ensures
        r@ == ".talloc.jwt"@,
{
    String::from_str(".talloc.jwt")
}

/// Trims the token file's content and accepts what remains only if it is
/// non-empty: the token is exactly the trimmed text, and a file holding
/// nothing but whitespace yields `None`.
pub fn parse_token(raw: &str) -> (r: Option<Token>)
    ensures
        r is Some <==> trim_spec(raw@).len() > 0,
        r matches Some(t) ==> t@ == trim_spec(raw@) && t.wf(),
{
    let n = raw.unicode_len();
    let mut start: usize = 0;
    while start < n
        invariant
            n == raw@.len(),
            start <= n,
            forall|j: int| 0 <= j < start ==> is_space(raw@[j]),
        ensures
            start <= n,
            forall|j: int| 0 <= j < start ==> is_space(raw@[j]),
            start < n ==> !is_space(raw@[start as int]),
        decreases n - start,
    {
        let c = raw.get_char(start);
        if !is_space_char(c) {
            break;
        }
        start = start + 1;
    }
    if start == n {
        proof {
            lemma_trim_start_prefix(raw@, n as int);
            assert(raw@.subrange(n as int, n as int) =~= Seq::<char>::empty());
        }
        return None;
    }
    let mut end: usize = n;
    while end > start
        invariant
            n == raw@.len(),
            start < end <= n,
            !is_space(raw@[start as int]),
            forall|j: int| end <= j < n ==> is_space(raw@[j]),
        ensures
            start < end <= n,
            !is_space(raw@[end - 1]),
            forall|j: int| end <= j < n ==> is_space(raw@[j]),
        decreases end,
    {
        let c = raw.get_char(end - 1);
        if !is_space_char(c) {
            break;
        }
        end = end - 1;
    }
    let sub = raw.substring_char(start, end);
    proof {
        lemma_trim_start_prefix(raw@, start as int);
        let t = raw@.subrange(start as int, n as int);
        assert(forall|j: int| end - start <= j < t.len() ==> is_space(t[j]));
        lemma_trim_end_suffix(t, end - start);
        assert(t.subrange(0, end - start) =~= raw@.subrange(start as int, end as int));
    }
    Some(Token { text: sub.to_owned() })
}

} // verus!
