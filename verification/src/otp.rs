//! One-time verification codes, keyed by email. At most one code is
//! outstanding per email; issuing a new code overwrites any prior one, and a
//! verification attempt consumes the entry atomically whether or not it
//! matches, so a code verifies successfully at most once.

use rand::Rng;
use vstd::prelude::*;

verus! {

/// One outstanding verification code for one email.
pub struct OtpEntry {
    pub email: String,
    pub code: u32,
}

/// The in-memory store of outstanding codes.
pub struct OtpVerifier {
    pub entries: Vec<OtpEntry>,
}

/// No two outstanding entries share an email.
pub open spec fn unique_emails(entries: Seq<OtpEntry>) -> bool {
    forall|i: int, j: int|
        0 <= i < j < entries.len() ==> entries[i].email@ != entries[j].email@
}

/// The code currently on file for `email`, if any.
pub open spec fn otp_lookup(entries: Seq<OtpEntry>, email: Seq<char>) -> Option<u32>
    decreases entries.len(),
{
    if entries.len() == 0 {
        None
    } else if entries.last().email@ == email {
        Some(entries.last().code)
    } else {
        otp_lookup(entries.drop_last(), email)
    }
}

/// Whether a verification attempt against `entries` succeeds: an entry for
/// `email` exists and the submission matches its code after trimming.
pub open spec fn verify_outcome(entries: Seq<OtpEntry>, email: Seq<char>, submitted: Seq<char>) -> bool {
    match otp_lookup(entries, email) {
        Option::Some(code) => code_matches(code, submitted),
        Option::None => false,
    }
}

impl OtpVerifier {
    /// Each email has at most one outstanding entry, and every stored code
    /// is a six-digit number.
    pub open spec fn wf(self) -> bool {
        unique_emails(self.entries@) && (forall|i: int|
            0 <= i < self.entries@.len() ==> 100000 <= #[trigger] self.entries@[i].code <= 999998)
    }

    pub fn new() -> (r: Self)
        ensures
            r.wf(),
            r.entries@.len() == 0,
    {
        OtpVerifier { entries: Vec::new() }
    }
}

/// A code is on file exactly when some entry carries the email.
proof fn lemma_lookup_some(entries: Seq<OtpEntry>, email: Seq<char>)
    ensures
        (otp_lookup(entries, email) is Some) <==> (exists|k: int|
            0 <= k < entries.len() && entries[k].email@ == email),
    decreases entries.len(),
{
    if entries.len() > 0 {
        lemma_lookup_some(entries.drop_last(), email);
        if entries.last().email@ == email {
        } else {
            if exists|k: int| 0 <= k < entries.len() && entries[k].email@ == email {
                let k = choose|k: int| 0 <= k < entries.len() && entries[k].email@ == email;
                assert(k < entries.len() - 1);
                assert(entries.drop_last()[k] == entries[k]);
            }
        }
    }
}

/// Under uniqueness, the lookup returns the code of the entry that carries
/// the email.
proof fn lemma_lookup_at(entries: Seq<OtpEntry>, email: Seq<char>, k: int)
    requires
        unique_emails(entries),
        0 <= k < entries.len(),
        entries[k].email@ == email,
    ensures
        otp_lookup(entries, email) == Some(entries[k].code),
    decreases entries.len(),
{
    if k < entries.len() - 1 {
        assert(entries.last().email@ != email);
        lemma_lookup_at(entries.drop_last(), email, k);
    }
}

/// Removing the entry at `i` erases its email from the store and leaves
/// every other lookup unchanged.
proof fn lemma_lookup_remove(entries: Seq<OtpEntry>, i: int, email: Seq<char>)
    requires
        unique_emails(entries),
        0 <= i < entries.len(),
    ensures
        unique_emails(entries.remove(i)),
        otp_lookup(entries.remove(i), email) == if entries[i].email@ == email {
            None::<u32>
        } else {
            otp_lookup(entries, email)
        },
{
    let s2 = entries.remove(i);
    assert forall|a: int, b: int| 0 <= a < b < s2.len() implies s2[a].email@ != s2[b].email@ by {
        assert(s2[a] == if a < i { entries[a] } else { entries[a + 1] });
        assert(s2[b] == if b < i { entries[b] } else { entries[b + 1] });
    }
    lemma_lookup_some(entries, email);
    lemma_lookup_some(s2, email);
    if entries[i].email@ == email {
        assert forall|k: int| 0 <= k < s2.len() implies s2[k].email@ != email by {
            assert(s2[k] == if k < i { entries[k] } else { entries[k + 1] });
        }
    } else {
        if exists|k: int| 0 <= k < entries.len() && entries[k].email@ == email {
            let k = choose|k: int| 0 <= k < entries.len() && entries[k].email@ == email;
            assert(k != i);
            let k2 = if k < i { k } else { k - 1 };
            assert(s2[k2] == entries[k]);
            lemma_lookup_at(entries, email, k);
            lemma_lookup_at(s2, email, k2);
        } else {
            assert forall|k: int| 0 <= k < s2.len() implies s2[k].email@ != email by {
                assert(s2[k] == if k < i { entries[k] } else { entries[k + 1] });
            }
        }
    }
}

/// Relies on rand::Rng::gen_range on the thread-local generator: a value
/// drawn uniformly from the half-open range handed to it.
#[verifier::external_body]
fn random_code() -> (r: u32)
    ensures
        100000 <= r < 999999,
{
    rand::thread_rng().gen_range(100000..999999)
}

fn find_entry(entries: &Vec<OtpEntry>, email: &String) -> (r: Option<usize>)
    ensures
        match r {
            Option::Some(i) => i < entries@.len() && entries@[i as int].email@ == email@,
            Option::None => forall|k: int| 0 <= k < entries@.len() ==> entries@[k].email@ != email@,
        },
{
    let mut i: usize = 0;
    while i < entries.len()
        invariant
            i <= entries@.len(),
            forall|k: int| 0 <= k < i ==> entries@[k].email@ != email@,
        decreases entries@.len() - i,
    {
        if entries[i].email == *email {
            return Some(i);
        }
        i += 1;
    }
    None
}

/// Drops the outstanding entry for `email`, if any; all other entries stay.
fn remove_entry(otp: &mut OtpVerifier, email: &String)
    requires
        old(otp).wf(),
    ensures
        final(otp).wf(),
        otp_lookup(final(otp).entries@, email@) is None,
        forall|e: Seq<char>| e != email@ ==> otp_lookup(final(otp).entries@, e) == otp_lookup(
            old(otp).entries@,
            e,
        ),
{
    match find_entry(&otp.entries, email) {
        Option::Some(i) => {
            let ghost s = otp.entries@;
            otp.entries.remove(i);
            proof {
                lemma_lookup_remove(s, i as int, email@);
                assert forall|e: Seq<char>| e != email@ implies otp_lookup(otp.entries@, e)
                    == otp_lookup(s, e) by {
                    lemma_lookup_remove(s, i as int, e);
                }
                assert forall|k: int| 0 <= k < otp.entries@.len() implies 100000
                    <= #[trigger] otp.entries@[k].code <= 999998 by {
                    assert(otp.entries@[k] == if k < i { s[k] } else { s[k + 1] });
                }
            }
        },
        Option::None => {
            proof {
                lemma_lookup_some(otp.entries@, email@);
            }
        },
    }
}

/// Issues a fresh six-digit code for `email`, overwriting any prior
/// outstanding code for that email; entries for other emails stay as they
/// were.
pub fn issue(otp: &mut OtpVerifier, email: &String) -> (code: u32)
    requires
        old(otp).wf(),
    ensures
        final(otp).wf(),
        100000 <= code <= 999998,
        otp_lookup(final(otp).entries@, email@) == Some(code),
        forall|e: Seq<char>| e != email@ ==> otp_lookup(final(otp).entries@, e) == otp_lookup(
            old(otp).entries@,
            e,
        ),
{
    let code = random_code();
    remove_entry(otp, email);
    let ghost s = otp.entries@;
    otp.entries.push(OtpEntry { email: email.clone(), code });
    proof {
        assert(otp.entries@.drop_last() =~= s);
        lemma_lookup_some(s, email@);
        assert forall|i: int, j: int|
            0 <= i < j < otp.entries@.len() implies otp.entries@[i].email@
            != otp.entries@[j].email@ by {
            if j < otp.entries@.len() - 1 {
                assert(otp.entries@[i] == s[i] && otp.entries@[j] == s[j]);
            } else {
                assert(otp.entries@[i] == s[i]);
            }
        }
    }
    code
}

/// A verification attempt: looks up and removes the entry for `email` in
/// one step regardless of outcome, and succeeds only if an entry existed
/// and its code matches the submission after trimming surrounding
/// whitespace. Once consumed, the same submission fails.
pub fn verify(otp: &mut OtpVerifier, email: &String, submitted: &String) -> (r: bool)
    requires
        old(otp).wf(),
    ensures
        final(otp).wf(),
        r == verify_outcome(old(otp).entries@, email@, submitted@),
        otp_lookup(final(otp).entries@, email@) is None,
        forall|e: Seq<char>| e != email@ ==> otp_lookup(final(otp).entries@, e) == otp_lookup(
            old(otp).entries@,
            e,
        ),
{
    match find_entry(&otp.entries, email) {
        Option::Some(i) => {
            let stored = otp.entries[i].code;
            proof {
                lemma_lookup_at(otp.entries@, email@, i as int);
            }
            let ghost s = otp.entries@;
            otp.entries.remove(i);
            proof {
                lemma_lookup_remove(s, i as int, email@);
                assert forall|e: Seq<char>| e != email@ implies otp_lookup(otp.entries@, e)
                    == otp_lookup(s, e) by {
                    lemma_lookup_remove(s, i as int, e);
                }
                assert forall|k: int| 0 <= k < otp.entries@.len() implies 100000
                    <= #[trigger] otp.entries@[k].code <= 999998 by {
                    assert(otp.entries@[k] == if k < i { s[k] } else { s[k + 1] });
                }
            }
            code_matches_exec(stored, submitted.as_str())
        },
        Option::None => {
            proof {
                lemma_lookup_some(otp.entries@, email@);
            }
            false
        },
    }
}

/// Law: a code still on file for `email` verifies when the submission
/// matches it after trimming.
pub proof fn lemma_outstanding_code_verifies(
    entries: Seq<OtpEntry>,
    email: Seq<char>,
    code: u32,
    submitted: Seq<char>,
)
    requires
        otp_lookup(entries, email) == Some(code),
        code_matches(code, submitted),
    ensures
        verify_outcome(entries, email, submitted),
{
}

/// Law: once the entry for `email` has been consumed, every further
/// verification attempt against that email fails, whatever is submitted.
pub proof fn lemma_consumed_code_fails(entries: Seq<OtpEntry>, email: Seq<char>, submitted: Seq<char>)
    requires
        otp_lookup(entries, email) is None,
    ensures
        !verify_outcome(entries, email, submitted),
{
}

/// The characters trimmed from a submitted code: the Unicode white-space
/// set (the one std's trimming recognizes) — space, the control whitespace
/// U+0009 through U+000D, next line, no-break space, ogham space mark, the
/// U+2000..U+200A spaces, line and paragraph separators, narrow no-break
/// space, medium mathematical space, and ideographic space.
pub open spec fn is_space(c: char) -> bool {
    c == ' ' || ('\u{0009}' <= c && c <= '\u{000D}') || c == '\u{0085}' || c == '\u{00A0}'
        || c == '\u{1680}' || ('\u{2000}' <= c && c <= '\u{200A}') || c == '\u{2028}' || c
        == '\u{2029}' || c == '\u{202F}' || c == '\u{205F}' || c == '\u{3000}'
}

pub open spec fn trim_start_spec(s: Seq<char>) -> Seq<char>
    decreases s.len(),
{
    if s.len() > 0 && is_space(s[0]) {
        trim_start_spec(s.drop_first())
    } else {
        s
    }
}

pub open spec fn trim_end_spec(s: Seq<char>) -> Seq<char>
    decreases s.len(),
{
    if s.len() > 0 && is_space(s.last()) {
        trim_end_spec(s.drop_last())
    } else {
        s
    }
}

/// The submission with surrounding whitespace removed.
pub open spec fn trimmed(s: Seq<char>) -> Seq<char> {
    trim_end_spec(trim_start_spec(s))
}

pub open spec fn digit_char(d: u32) -> char {
    if d == 0 {
        '0'
    } else if d == 1 {
        '1'
    } else if d == 2 {
        '2'
    } else if d == 3 {
        '3'
    } else if d == 4 {
        '4'
    } else if d == 5 {
        '5'
    } else if d == 6 {
        '6'
    } else if d == 7 {
        '7'
    } else if d == 8 {
        '8'
    } else {
        '9'
    }
}

/// The six decimal digits of a stored code, most significant first.
pub open spec fn code_digits(code: u32) -> Seq<char> {
    seq![
        digit_char((code / 100000) % 10),
        digit_char((code / 10000) % 10),
        digit_char((code / 1000) % 10),
        digit_char((code / 100) % 10),
        digit_char((code / 10) % 10),
        digit_char(code % 10),
    ]
}

/// A submission matches a stored code when, after trimming surrounding
/// whitespace, it consists of exactly the code's six decimal digits.
pub open spec fn code_matches(code: u32, submitted: Seq<char>) -> bool {
    trimmed(submitted) == code_digits(code)
}

fn is_space_exec(c: char) -> (r: bool)
    ensures
        r == is_space(c),
{
    c == ' ' || ('\u{0009}' <= c && c <= '\u{000D}') || c == '\u{0085}' || c == '\u{00A0}'
        || c == '\u{1680}' || ('\u{2000}' <= c && c <= '\u{200A}') || c == '\u{2028}' || c
        == '\u{2029}' || c == '\u{202F}' || c == '\u{205F}' || c == '\u{3000}'
}

fn digit_char_exec(d: u32) -> (c: char)
    requires
        d < 10,
    ensures
        c == digit_char(d),
{
    if d == 0 {
        '0'
    } else if d == 1 {
        '1'
    } else if d == 2 {
        '2'
    } else if d == 3 {
        '3'
    } else if d == 4 {
        '4'
    } else if d == 5 {
        '5'
    } else if d == 6 {
        '6'
    } else if d == 7 {
        '7'
    } else if d == 8 {
        '8'
    } else {
        '9'
    }
}

fn code_digit_at(code: u32, j: usize) -> (c: char)
    requires
        j < 6,
    ensures
        c == code_digits(code)[j as int],
{
    let d: u32 = if j == 0 {
        (code / 100000) % 10
    } else if j == 1 {
        (code / 10000) % 10
    } else if j == 2 {
        (code / 1000) % 10
    } else if j == 3 {
        (code / 100) % 10
    } else if j == 4 {
        (code / 10) % 10
    } else {
        code % 10
    };
    digit_char_exec(d)
}

/// Decides `code_matches`: trims surrounding whitespace, then compares the
/// remainder against the code's six decimal digits.
pub fn code_matches_exec(code: u32, submitted: &str) -> (r: bool)
    ensures
        r == code_matches(code, submitted@),
{
    let n = submitted.unicode_len();
    proof {
        assert(submitted@.subrange(0, n as int) =~= submitted@);
    }
    let mut start: usize = 0;
    while start < n && is_space_exec(submitted.get_char(start))
        invariant
            n == submitted@.len(),
            start <= n,
            trim_start_spec(submitted@) == trim_start_spec(
                submitted@.subrange(start as int, n as int),
            ),
        decreases n - start,
    {
        proof {
            let sub = submitted@.subrange(start as int, n as int);
            assert(sub[0] == submitted@[start as int]);
            assert(sub.drop_first() =~= submitted@.subrange(start as int + 1, n as int));
        }
        start += 1;
    }
    proof {
        let sub = submitted@.subrange(start as int, n as int);
        if start == n {
            assert(sub =~= Seq::<char>::empty());
        }
        assert(trim_start_spec(submitted@) == sub);
    }
    let mut end: usize = n;
    while end > start && is_space_exec(submitted.get_char(end - 1))
        invariant
            n == submitted@.len(),
            start <= end <= n,
            trim_start_spec(submitted@) == submitted@.subrange(start as int, n as int),
            trimmed(submitted@) == trim_end_spec(submitted@.subrange(start as int, end as int)),
        decreases end,
    {
        proof {
            let sub = submitted@.subrange(start as int, end as int);
            assert(sub.last() == submitted@[end - 1]);
            assert(sub.drop_last() =~= submitted@.subrange(start as int, end as int - 1));
        }
        end -= 1;
    }
    proof {
        let sub = submitted@.subrange(start as int, end as int);
        if end == start {
            assert(sub =~= Seq::<char>::empty());
        }
        assert(trimmed(submitted@) == sub);
    }
    if end - start != 6 {
        proof {
            assert(trimmed(submitted@).len() != code_digits(code).len());
        }
        return false;
    }
    let mut j: usize = 0;
    while j < 6
        invariant
            n == submitted@.len(),
            start + 6 == end,
            end <= n,
            j <= 6,
            trimmed(submitted@) == submitted@.subrange(start as int, end as int),
            forall|k: int|
                0 <= k < j ==> submitted@.subrange(start as int, end as int)[k] == code_digits(
                    code,
                )[k],
        decreases 6 - j,
    {
        let c = submitted.get_char(start + j);
        let e = code_digit_at(code, j);
        if c != e {
            proof {
                assert(submitted@.subrange(start as int, end as int)[j as int] == submitted@[start
                    + j as int]);
            }
            return false;
        }
        proof {
            assert(submitted@.subrange(start as int, end as int)[j as int] == submitted@[start
                + j as int]);
        }
        j += 1;
    }
    proof {
        assert(submitted@.subrange(start as int, end as int) =~= code_digits(code));
    }
    true
}

} // verus!
