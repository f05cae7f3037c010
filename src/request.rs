use vstd::prelude::*;

verus! {

/// Number of tokens generated when the requested cap is not a positive integer.
pub const DEFAULT_MAX_TOKENS: usize = 500;

/// A completion request as it arrives: the prompt text and the token cap,
/// both as text. The cap is read by the executor, not at the boundary.
pub struct CompletionRequest {
    pub prompt_tokens: String,
    pub completion_max_len: String,
}

impl CompletionRequest {
    pub fn new(prompt_tokens: String, completion_max_len: String) -> (r: CompletionRequest)
        ensures
            r.prompt_tokens@ == prompt_tokens@,
            r.completion_max_len@ == completion_max_len@,
    {
        CompletionRequest { prompt_tokens, completion_max_len }
    }

    /// The number of tokens this request may generate.
    pub fn max_tokens(&self) -> (r: usize)
        ensures
            r as nat == max_tokens_of(self.completion_max_len@),
    {
        parse_max_tokens(self.completion_max_len.as_str())
    }
}

pub open spec fn is_digit(c: char) -> bool {
    '0' <= c && c <= '9'
}

/// Value of an ASCII decimal digit.
pub open spec fn digit_value(c: char) -> nat {
    (c as nat - '0' as nat) as nat
}

/// Value of a string of decimal digits, most significant first.
pub open spec fn decimal_value(s: Seq<char>) -> nat
    decreases s.len(),
{
    if s.len() == 0 {
        0
    } else {
        decimal_value(s.drop_last()) * 10 + digit_value(s.last())
    }
}

/// The digits of a numeral: the text without one leading `+`.
pub open spec fn digits_of(s: Seq<char>) -> Seq<char> {
    if s.len() > 0 && s[0] == '+' {
        s.subrange(1, s.len() as int)
    } else {
        s
    }
}

/// An unsigned decimal numeral: an optional `+` and at least one digit.
pub open spec fn is_numeral(s: Seq<char>) -> bool {
    let d = digits_of(s);
    d.len() > 0 && forall|i: int| 0 <= i < d.len() ==> #[trigger] is_digit(d[i])
}

/// The cap that a request's text names: its value when it is a numeral for a
/// positive integer that fits in `usize`, and the default otherwise.
pub open spec fn max_tokens_of(s: Seq<char>) -> nat {
    if is_numeral(s) && 0 < decimal_value(digits_of(s)) && decimal_value(digits_of(s))
        <= usize::MAX {
        decimal_value(digits_of(s))
    } else {
        DEFAULT_MAX_TOKENS as nat
    }
}

proof fn lemma_decimal_value_grows(s: Seq<char>, j: int)
    requires
        0 <= j <= s.len(),
    ensures
        decimal_value(s.subrange(0, j)) <= decimal_value(s),
    decreases s.len() - j,
{
    if j < s.len() {
        lemma_decimal_value_grows(s, j + 1);
        let t = s.subrange(0, j + 1);
        assert(t.drop_last() =~= s.subrange(0, j));
    } else {
        assert(s.subrange(0, j) =~= s);
    }
}

/// Reads the token cap of a request: a positive decimal integer, or the
/// default where the text is anything else.
pub fn parse_max_tokens(s: &str) -> (r: usize)
    ensures
        r as nat == max_tokens_of(s@),
{
    let n = s.unicode_len();
    let start: usize = if n > 0 && s.get_char(0) == '+' {
        1
    } else {
        0
    };
    let ghost d = digits_of(s@);
    assert(d =~= s@.subrange(start as int, n as int));
    if start >= n {
        return DEFAULT_MAX_TOKENS;
    }
    let mut acc: usize = 0;
    let mut i: usize = start;
    while i < n
        invariant
            start <= i <= n,
            n == s@.len(),
            d == s@.subrange(start as int, n as int),
            d == digits_of(s@),
            forall|k: int| 0 <= k < i - start ==> #[trigger] is_digit(d[k]),
            acc as nat == decimal_value(d.subrange(0, i - start)),
        decreases n - i,
    {
        let c = s.get_char(i);
        if !('0' <= c && c <= '9') {
            assert(!is_digit(d[i - start]));
            return DEFAULT_MAX_TOKENS;
        }
        let digit = (c as u32 - '0' as u32) as usize;
        let ghost prefix = d.subrange(0, i + 1 - start);
        assert(prefix.drop_last() =~= d.subrange(0, i - start));
        assert(prefix.last() == c);
        assert(digit as nat == digit_value(c));
        match acc.checked_mul(10) {
            Some(m) => match m.checked_add(digit) {
                Some(next) => {
                    acc = next;
                },
                None => {
                    proof {
                        lemma_decimal_value_grows(d, i + 1 - start);
                    }
                    return DEFAULT_MAX_TOKENS;
                },
            },
            None => {
                proof {
                    lemma_decimal_value_grows(d, i + 1 - start);
                }
                return DEFAULT_MAX_TOKENS;
            },
        }
        i = i + 1;
    }
    assert(d.subrange(0, n - start) =~= d);
    if acc == 0 {
        DEFAULT_MAX_TOKENS
    } else {
        acc
    }
}

} // verus!
