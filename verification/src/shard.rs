//! Sharding parameters: select every `n`-th mutant of an ordered list for one
//! parallel worker.

use vstd::prelude::*;
use vstd::string::StrSliceExecFns;
use vstd::string::StringExecFns;

verus! {

/// Select mutants for a particular shard of the total list.
#[derive(Debug, Clone, Copy, Eq, PartialEq, Structural)]
pub struct Shard {
    /// Index modulo n.
    pub k: usize,
    /// Modulus of sharding.
    pub n: usize,
}

/// Why a shard descriptor was rejected.
#[derive(Debug, Clone, Copy, Eq, PartialEq, Structural)]
pub enum ShardError {
    /// The descriptor has no slash.
    MissingSlash,
    /// The part before the slash is not an unsigned number.
    BadK,
    /// The part after the slash is not an unsigned number.
    BadN,
    /// The index is not below the modulus.
    KNotBelowN,
}

impl ShardError {
    /// A human-readable description of the failure.
    pub fn message(&self) -> (r: String)
        ensures
            r@ == match *self {
                ShardError::MissingSlash => "shard must be k/n"@,
                ShardError::BadK => "shard k"@,
                ShardError::BadN => "shard n"@,
                ShardError::KNotBelowN => "shard k must be less than n"@,
            },
    {
        match self {
            ShardError::MissingSlash => String::from_str("shard must be k/n"),
            ShardError::BadK => String::from_str("shard k"),
            ShardError::BadN => String::from_str("shard n"),
            ShardError::KNotBelowN => String::from_str("shard k must be less than n"),
        }
    }
}

/// The elements of `s` whose position is `k` modulo `n`, in order.
pub open spec fn spec_selected<M>(s: Seq<M>, k: int, n: int) -> Seq<M>
    recommends
        n > 0,
    decreases s.len(),
{
    if s.len() == 0 {
        Seq::empty()
    } else {
        spec_selected(s.drop_last(), k, n) + if (s.len() - 1) % n == k {
            seq![s.last()]
        } else {
            Seq::empty()
        }
    }
}

pub open spec fn spec_is_digit(c: char) -> bool {
    '0' <= c && c <= '9'
}

pub open spec fn spec_digit_val(c: char) -> int {
    c as int - 48
}

pub open spec fn spec_all_digits(s: Seq<char>) -> bool {
    forall|i: int| 0 <= i < s.len() ==> spec_is_digit(#[trigger] s[i])
}

/// The number denoted by a run of decimal digits, most significant first.
pub open spec fn spec_digits_val(s: Seq<char>) -> int
    decreases s.len(),
{
    if s.len() == 0 {
        0
    } else {
        spec_digits_val(s.drop_last()) * 10 + spec_digit_val(s.last())
    }
}

/// The digits of an unsigned decimal numeral: everything after an optional
/// leading plus sign.
pub open spec fn spec_numeral_body(s: Seq<char>) -> Seq<char> {
    if s.len() > 0 && s[0] == '+' {
        s.drop_first()
    } else {
        s
    }
}

/// Whether `s` is a numeral that parses as a machine-word unsigned integer:
/// an optional plus sign, then at least one digit, denoting a value in range.
pub open spec fn spec_valid_usize(s: Seq<char>) -> bool {
    &&& spec_numeral_body(s).len() > 0
    &&& spec_all_digits(spec_numeral_body(s))
    &&& spec_digits_val(spec_numeral_body(s)) <= usize::MAX
}

pub open spec fn spec_usize_val(s: Seq<char>) -> int {
    spec_digits_val(spec_numeral_body(s))
}

/// The position of the first slash of `s`, or -1 if there is none.
pub open spec fn spec_first_slash(s: Seq<char>) -> int
    decreases s.len(),
{
    if s.len() == 0 {
        -1
    } else if s[0] == '/' {
        0
    } else {
        let rest = spec_first_slash(s.drop_first());
        if rest < 0 {
            -1
        } else {
            rest + 1
        }
    }
}

/// What parsing a shard descriptor `k/n` yields: the split is at the first
/// slash, both parts must be unsigned numerals, and the index must be below
/// the modulus.
pub open spec fn spec_shard_from_str(s: Seq<char>) -> Result<Shard, ShardError> {
    let i = spec_first_slash(s);
    if i < 0 {
        Err(ShardError::MissingSlash)
    } else {
        let k_txt = s.take(i);
        let n_txt = s.skip(i + 1);
        if !spec_valid_usize(k_txt) {
            Err(ShardError::BadK)
        } else if !spec_valid_usize(n_txt) {
            Err(ShardError::BadN)
        } else if spec_usize_val(k_txt) >= spec_usize_val(n_txt) {
            Err(ShardError::KNotBelowN)
        } else {
            Ok(Shard { k: spec_usize_val(k_txt) as usize, n: spec_usize_val(n_txt) as usize })
        }
    }
}

proof fn lemma_first_slash_at(s: Seq<char>, i: int)
    requires
        0 <= i < s.len(),
        s[i] == '/',
        forall|j: int| 0 <= j < i ==> s[j] != '/',
    ensures
        spec_first_slash(s) == i,
    decreases i,
{
    if i > 0 {
        lemma_first_slash_at(s.drop_first(), i - 1);
    }
}

proof fn lemma_first_slash_none(s: Seq<char>)
    requires
        forall|j: int| 0 <= j < s.len() ==> s[j] != '/',
    ensures
        spec_first_slash(s) == -1,
    decreases s.len(),
{
    if s.len() > 0 {
        lemma_first_slash_none(s.drop_first());
    }
}

proof fn lemma_digits_val_nonneg(s: Seq<char>)
    requires
        spec_all_digits(s),
    ensures
        spec_digits_val(s) >= 0,
    decreases s.len(),
{
    if s.len() > 0 {
        assert(spec_all_digits(s.drop_last()));
        lemma_digits_val_nonneg(s.drop_last());
    }
}

proof fn lemma_digits_val_prefix_le(s: Seq<char>, m: int)
    requires
        spec_all_digits(s),
        0 <= m <= s.len(),
    ensures
        spec_digits_val(s.take(m)) <= spec_digits_val(s),
    decreases s.len() - m,
{
    if m < s.len() {
        lemma_digits_val_prefix_le(s, m + 1);
        assert(s.take(m + 1).drop_last() =~= s.take(m));
        assert(s.take(m + 1).last() == s[m]);
        assert(spec_all_digits(s.take(m)));
        lemma_digits_val_nonneg(s.take(m));
    } else {
        assert(s.take(m) =~= s);
    }
}

/// Find the first slash of a string.
fn find_slash(s: &str) -> (r: Option<usize>)
    ensures
        match r {
            Some(i) => i < s@.len() && s@[i as int] == '/' && forall|j: int|
                0 <= j < i ==> s@[j] != '/',
            None => forall|j: int| 0 <= j < s@.len() ==> s@[j] != '/',
        },
{
    let len = s.unicode_len();
    let mut i: usize = 0;
    while i < len
        invariant
            i <= len,
            len == s@.len(),
            forall|j: int| 0 <= j < i ==> s@[j] != '/',
        decreases len - i,
    {
        if s.get_char(i) == '/' {
            return Some(i);
        }
        i = i + 1;
    }
    None
}

/// Parse the characters of `s` from `from` (inclusive) to `to` (exclusive) as
/// an unsigned decimal numeral.
fn parse_usize_part(s: &str, from: usize, to: usize) -> (r: Option<usize>)
    requires
        from <= to <= s@.len(),
    ensures
        match r {
            Some(v) => spec_valid_usize(s@.subrange(from as int, to as int)) && v
                == spec_usize_val(s@.subrange(from as int, to as int)),
            None => !spec_valid_usize(s@.subrange(from as int, to as int)),
        },
{
    let ghost whole = s@.subrange(from as int, to as int);
    let mut start = from;
    if from < to && s.get_char(from) == '+' {
        start = from + 1;
    }
    let ghost body = s@.subrange(start as int, to as int);
    proof {
        assert(spec_numeral_body(whole) =~= body);
    }
    if start == to {
        return None;
    }
    let mut val: usize = 0;
    let mut i = start;
    while i < to
        invariant
            from <= start <= i <= to,
            to <= s@.len(),
            body == s@.subrange(start as int, to as int),
            spec_numeral_body(s@.subrange(from as int, to as int)) == body,
            spec_all_digits(s@.subrange(start as int, i as int)),
            val == spec_digits_val(s@.subrange(start as int, i as int)),
        decreases to - i,
    {
        let c = s.get_char(i);
        if !(c >= '0' && c <= '9') {
            proof {
                assert(body[i - start] == s@[i as int]);
                assert(!spec_is_digit(body[i - start]));
                assert(!spec_all_digits(body));
            }
            return None;
        }
        let d: usize = (c as u32 - 48) as usize;
        let ghost prefix = s@.subrange(start as int, i as int);
        let ghost prefix1 = s@.subrange(start as int, i as int + 1);
        proof {
            assert(prefix1.drop_last() =~= prefix);
            assert(prefix1.last() == s@[i as int]);
        }
        let val10 = match val.checked_mul(10) {
            Some(v) => v,
            None => {
                proof {
                    if spec_all_digits(body) {
                        lemma_digits_val_nonneg(prefix);
                        assert(body.take(i - start + 1) =~= prefix1);
                        lemma_digits_val_prefix_le(body, i - start + 1);
                        assert(spec_digits_val(body) > usize::MAX);
                    }
                }
                return None;
            },
        };
        let next = match val10.checked_add(d) {
            Some(v) => v,
            None => {
                proof {
                    if spec_all_digits(body) {
                        lemma_digits_val_nonneg(prefix);
                        assert(body.take(i - start + 1) =~= prefix1);
                        lemma_digits_val_prefix_le(body, i - start + 1);
                        assert(spec_digits_val(body) > usize::MAX);
                    }
                }
                return None;
            },
        };
        val = next;
        i = i + 1;
        proof {
            assert(s@.subrange(start as int, i as int) =~= prefix1);
        }
    }
    proof {
        assert(s@.subrange(start as int, i as int) =~= body);
    }
    Some(val)
}

impl Shard {
    /// Whether the shard describes a valid partition: a positive modulus and
    /// an index below it.
    pub open spec fn wf(self) -> bool {
        self.k < self.n
    }

    /// Select the mutants that should be run for this shard.
    pub fn select<M>(&self, mutants: Vec<M>) -> (r: Vec<M>)
        requires
            self.n > 0,
        ensures
            r@ == spec_selected(mutants@, self.k as int, self.n as int),
    {
        let ghost orig = mutants@;
        let total = mutants.len();
        let mut rest = mutants;
        let mut out: Vec<M> = Vec::new();
        let mut i: usize = 0;
        proof {
            assert(orig.take(0) =~= Seq::<M>::empty());
            assert(rest@ =~= orig.skip(0));
        }
        while rest.len() > 0
            invariant
                self.n > 0,
                total == orig.len(),
                i + rest@.len() == orig.len(),
                rest@ == orig.skip(i as int),
                out@ == spec_selected(orig.take(i as int), self.k as int, self.n as int),
            decreases rest@.len(),
        {
            let m = rest.remove(0);
            proof {
                assert(orig.skip(i as int)[0] == orig[i as int]);
            }
            if i % self.n == self.k {
                out.push(m);
            }
            i = i + 1;
            proof {
                assert(rest@ =~= orig.skip(i as int));
                assert(orig.take(i as int).drop_last() =~= orig.take(i as int - 1));
                assert(orig.take(i as int).last() == orig[i as int - 1]);
            }
        }
        proof {
            assert(orig.take(i as int) =~= orig);
        }
        out
    }

    /// Parse a `k/n` shard descriptor.
    pub fn from_str(s: &str) -> (r: Result<Shard, ShardError>)
        ensures
            r == spec_shard_from_str(s@),
            r matches Ok(sh) ==> sh.wf(),
    {
        let len = s.unicode_len();
        let slash = match find_slash(s) {
            Some(i) => i,
            None => {
                proof {
                    lemma_first_slash_none(s@);
                }
                return Err(ShardError::MissingSlash);
            },
        };
        proof {
            lemma_first_slash_at(s@, slash as int);
            assert(s@.subrange(0, slash as int) =~= s@.take(slash as int));
            assert(s@.subrange(slash as int + 1, s@.len() as int) =~= s@.skip(slash as int + 1));
        }
        let k = match parse_usize_part(s, 0, slash) {
            Some(v) => v,
            None => {
                return Err(ShardError::BadK);
            },
        };
        let n = match parse_usize_part(s, slash + 1, len) {
            Some(v) => v,
            None => {
                return Err(ShardError::BadN);
            },
        };
        if k >= n {
            return Err(ShardError::KNotBelowN);
        }
        Ok(Shard { k, n })
    }
}

} // verus!
