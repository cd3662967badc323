//! Per-chat allow-listing for the chat front-end, and the parsing of the
//! comma-separated allow-list the process is configured with: tokens are
//! trimmed of surrounding whitespace and parsed as signed 64-bit integers,
//! and tokens that do not parse are skipped.

use vstd::prelude::*;

verus! {

/// The whitespace `trim` strips from both ends of a token.
pub open spec fn is_space(c: char) -> bool {
    c == ' ' || c == '\t' || c == '\n' || c == '\r'
}

pub open spec fn trim_start(s: Seq<char>) -> Seq<char>
    decreases s.len(),
{
    if s.len() > 0 && is_space(s[0]) {
        trim_start(s.skip(1))
    } else {
        s
    }
}

pub open spec fn trim_end(s: Seq<char>) -> Seq<char>
    decreases s.len(),
{
    if s.len() > 0 && is_space(s.last()) {
        trim_end(s.drop_last())
    } else {
        s
    }
}

/// A token with surrounding whitespace removed.
pub open spec fn trim(s: Seq<char>) -> Seq<char> {
    trim_end(trim_start(s))
}

pub open spec fn is_digit(c: char) -> bool {
    '0' <= c && c <= '9'
}

pub open spec fn digit_val(c: char) -> int {
    c as int - '0' as int
}

pub open spec fn all_digits(s: Seq<char>) -> bool {
    forall|i: int| 0 <= i < s.len() ==> is_digit(#[trigger] s[i])
}

/// The value of a digit string read in base 10.
pub open spec fn digits_val(s: Seq<char>) -> int
    decreases s.len(),
{
    if s.len() == 0 {
        0
    } else {
        digits_val(s.drop_last()) * 10 + digit_val(s.last())
    }
}

/// What parsing a token as an `i64` yields: an optional sign, then at least
/// one digit and nothing else, and the value must fit the type.
pub open spec fn parse_i64(s: Seq<char>) -> Option<i64> {
    let neg = s.len() > 0 && s[0] == '-';
    let mag = if s.len() > 0 && (s[0] == '-' || s[0] == '+') {
        s.skip(1)
    } else {
        s
    };
    if mag.len() == 0 || !all_digits(mag) {
        None
    } else {
        let v = digits_val(mag);
        if neg {
            if -v >= i64::MIN {
                Some((-v) as i64)
            } else {
                None
            }
        } else {
            if v <= i64::MAX {
                Some(v as i64)
            } else {
                None
            }
        }
    }
}

/// The comma-separated tokens of `s`; an empty string is one empty token,
/// and a trailing comma yields a final empty token.
pub open spec fn split_commas(s: Seq<char>) -> Seq<Seq<char>>
    decreases s.len(),
{
    if s.len() == 0 {
        seq![Seq::<char>::empty()]
    } else {
        let rest = split_commas(s.drop_last());
        if s.last() == ',' {
            rest.push(Seq::<char>::empty())
        } else {
            rest.update(rest.len() - 1, rest.last().push(s.last()))
        }
    }
}

/// The identifiers of the tokens that parse, in order; the rest are skipped.
pub open spec fn ids_of_tokens(toks: Seq<Seq<char>>) -> Seq<i64>
    decreases toks.len(),
{
    if toks.len() == 0 {
        Seq::empty()
    } else {
        let rest = ids_of_tokens(toks.drop_last());
        match parse_i64(trim(toks.last())) {
            Some(v) => rest.push(v),
            None => rest,
        }
    }
}

/// The allow-list a comma-separated configuration value denotes.
pub open spec fn parsed_ids(s: Seq<char>) -> Seq<i64> {
    ids_of_tokens(split_commas(s))
}

proof fn lemma_digits_val_nonneg(s: Seq<char>)
    requires
        all_digits(s),
    ensures
        digits_val(s) >= 0,
    decreases s.len(),
{
    if s.len() > 0 {
        assert(all_digits(s.drop_last()));
        lemma_digits_val_nonneg(s.drop_last());
    }
}

proof fn lemma_digits_val_grows(s: Seq<char>, i: int)
    requires
        all_digits(s),
        0 <= i <= s.len(),
    ensures
        digits_val(s) >= digits_val(s.take(i)),
    decreases s.len() - i,
{
    if i < s.len() {
        assert(all_digits(s.take(i))) by {
            assert(forall|k: int| 0 <= k < i ==> s.take(i)[k] == s[k]);
        }
        assert(s.take(i + 1).drop_last() =~= s.take(i));
        lemma_digits_val_nonneg(s.take(i));
        assert(digits_val(s.take(i + 1)) == digits_val(s.take(i)) * 10 + digit_val(s[i]));
        lemma_digits_val_grows(s, i + 1);
    } else {
        assert(s.take(i) =~= s);
    }
}

fn is_space_char(c: char) -> (r: bool)
    ensures
        r == is_space(c),
{
    c == ' ' || c == '\t' || c == '\n' || c == '\r'
}

/// Parses the characters `from..to` of `s`, trimmed, as an `i64`, exactly as
/// the allow-list configuration reads one token.
#[verifier::loop_isolation(false)]
fn parse_token(s: &str, from: usize, to: usize) -> (r: Option<i64>)
    requires
        from <= to <= s@.len(),
    ensures
        r == parse_i64(trim(s@.subrange(from as int, to as int))),
{
    let ghost orig = s@.subrange(from as int, to as int);
    let mut lo = from;
    let mut hi = to;
    while lo < hi && is_space_char(s.get_char(lo))
        invariant
            from <= lo <= hi <= s@.len(),
            hi == to,
            trim_start(orig) == trim_start(s@.subrange(lo as int, hi as int)),
            orig == s@.subrange(from as int, to as int),
        decreases hi - lo,
    {
        proof {
            assert(s@.subrange(lo as int, hi as int).skip(1) =~= s@.subrange(
                lo as int + 1,
                hi as int,
            ));
        }
        lo = lo + 1;
    }
    proof {
        assert(trim_start(s@.subrange(lo as int, hi as int)) == s@.subrange(lo as int, hi as int));
    }
    while hi > lo && is_space_char(s.get_char(hi - 1))
        invariant
            from <= lo <= hi <= s@.len(),
            trim(orig) == trim_end(s@.subrange(lo as int, hi as int)),
        decreases hi - lo,
    {
        proof {
            assert(s@.subrange(lo as int, hi as int).drop_last() =~= s@.subrange(
                lo as int,
                hi as int - 1,
            ));
        }
        hi = hi - 1;
    }
    let ghost tok = s@.subrange(lo as int, hi as int);
    proof {
        assert(trim(orig) == tok);
    }
    if lo == hi {
        return None;
    }
    let first = s.get_char(lo);
    let neg = first == '-';
    let dstart: usize = if first == '-' || first == '+' {
        lo + 1
    } else {
        lo
    };
    let ghost digits = s@.subrange(dstart as int, hi as int);
    proof {
        if first == '-' || first == '+' {
            assert(tok.skip(1) =~= digits);
        } else {
            assert(tok =~= digits);
        }
    }
    if dstart == hi {
        return None;
    }
    let mut mag: u128 = 0;
    let mut i = dstart;
    while i < hi
        invariant
            dstart <= i <= hi <= s@.len(),
            digits == s@.subrange(dstart as int, hi as int),
            dstart < hi,
            mag as int == digits_val(digits.take(i - dstart)),
            all_digits(digits.take(i - dstart)),
            mag <= 0x8000_0000_0000_0000u128,
        decreases hi - i,
    {
        let c = s.get_char(i);
        if !(c >= '0' && c <= '9') {
            proof {
                assert(digits[i - dstart] == c);
            }
            return None;
        }
        let d: u128 = (c as u32 - 48) as u128;
        mag = mag * 10 + d;
        proof {
            let j = i - dstart;
            assert(digits.take(j + 1).drop_last() =~= digits.take(j));
            assert(digits.take(j + 1).last() == digits[j]);
            assert(digits[j] == c);
            assert(digit_val(c) == d);
        }
        i = i + 1;
        if mag > 0x8000_0000_0000_0000u128 {
            proof {
                if all_digits(digits) {
                    lemma_digits_val_grows(digits, i - dstart);
                    assert(digits.take(hi - dstart) =~= digits);
                    assert(digits_val(digits) >= mag as int);
                }
            }
            return None;
        }
    }
    proof {
        assert(digits.take(hi - dstart) =~= digits);
        assert(mag as int == digits_val(digits));
    }
    if neg {
        if mag == 0x8000_0000_0000_0000u128 {
            Some(i64::MIN)
        } else {
            Some(-(mag as i64))
        }
    } else {
        if mag > 0x7FFF_FFFF_FFFF_FFFFu128 {
            None
        } else {
            Some(mag as i64)
        }
    }
}

/// Parses a comma-separated allow-list: each token is trimmed and read as an
/// `i64`, and tokens that do not parse are skipped.
pub fn parse_chat_ids(csv: &str) -> (ids: Vec<i64>)
    ensures
        ids@ == parsed_ids(csv@),
{
    let n = csv.unicode_len();
    let mut ids: Vec<i64> = Vec::new();
    let mut tok_start: usize = 0;
    let mut i: usize = 0;
    proof {
        assert(csv@.take(0) =~= Seq::<char>::empty());
        assert(split_commas(csv@.take(0)).drop_last() =~= Seq::<Seq<char>>::empty());
    }
    while i < n
        invariant
            0 <= tok_start <= i <= n == csv@.len(),
            ids@ == ids_of_tokens(split_commas(csv@.take(i as int)).drop_last()),
            split_commas(csv@.take(i as int)).last() == csv@.subrange(tok_start as int, i as int),
            split_commas(csv@.take(i as int)).len() >= 1,
        decreases n - i,
    {
        let ghost pre = split_commas(csv@.take(i as int));
        proof {
            assert(csv@.take(i as int + 1).drop_last() =~= csv@.take(i as int));
            assert(csv@.take(i as int + 1).last() == csv@[i as int]);
        }
        let c = csv.get_char(i);
        if c == ',' {
            let r = parse_token(csv, tok_start, i);
            match r {
                Some(v) => ids.push(v),
                None => (),
            }
            proof {
                let post = split_commas(csv@.take(i as int + 1));
                assert(post == pre.push(Seq::<char>::empty()));
                assert(post.drop_last() =~= pre);
                assert(ids@ == ids_of_tokens(pre));
                assert(post.last() =~= csv@.subrange(i as int + 1, i as int + 1));
            }
            tok_start = i + 1;
        } else {
            proof {
                let post = split_commas(csv@.take(i as int + 1));
                assert(post == pre.update(pre.len() - 1, pre.last().push(csv@[i as int])));
                assert(post.drop_last() =~= pre.drop_last());
                assert(post.last() =~= csv@.subrange(tok_start as int, i as int + 1));
            }
        }
        i = i + 1;
    }
    let r = parse_token(csv, tok_start, n);
    match r {
        Some(v) => ids.push(v),
        None => (),
    }
    proof {
        assert(csv@.take(n as int) =~= csv@);
        assert(ids@ == ids_of_tokens(split_commas(csv@)));
    }
    ids
}

/// What the chat front-end is configured with: the transport credential and
/// the chats it may serve. An empty allow-list means every chat is allowed.
pub struct Config {
    token: String,
    allowed_chat_ids: Vec<i64>,
}

impl Config {
    pub closed spec fn token_spec(&self) -> Seq<char> {
        self.token@
    }

    pub closed spec fn allowed_spec(&self) -> Seq<i64> {
        self.allowed_chat_ids@
    }

    /// Builds the configuration from the raw values the environment supplies:
    /// the transport credential and, if set, the comma-separated allow-list.
    pub fn new(token: String, allowed_csv: Option<&str>) -> (c: Config)
        ensures
            c.token_spec() == token@,
            c.allowed_spec() == match allowed_csv {
                Some(s) => parsed_ids(s@),
                None => Seq::<i64>::empty(),
            },
    {
        let allowed_chat_ids = match allowed_csv {
            Some(s) => parse_chat_ids(s),
            None => Vec::new(),
        };
        Config { token, allowed_chat_ids }
    }

    /// The credential the chat transport is started with.
    pub fn bot_token(&self) -> (t: &str)
        ensures
            t@ == self.token_spec(),
    {
        self.token.as_str()
    }

    /// Whether a chat may use the bot: every chat when no allow-list is
    /// configured, otherwise exactly the listed chats.
    pub fn is_chat_allowed(&self, chat_id: i64) -> (r: bool)
        ensures
            r <==> (self.allowed_spec().len() == 0 || self.allowed_spec().contains(chat_id)),
    {
        if self.allowed_chat_ids.len() == 0 {
            return true;
        }
        let mut i: usize = 0;
        while i < self.allowed_chat_ids.len()
            invariant
                0 <= i <= self.allowed_chat_ids@.len(),
                forall|k: int| 0 <= k < i ==> self.allowed_chat_ids@[k] != chat_id,
            decreases self.allowed_chat_ids@.len() - i,
        {
            if self.allowed_chat_ids[i] == chat_id {
                return true;
            }
            i = i + 1;
        }
        false
    }
}

} // verus!
