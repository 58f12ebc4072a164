//! The names of files that are written under another name first, and how such
//! files are told apart when they were left behind.

use crate::text::{
    all_in, begins_with, decimal, ends_with, finishes_with, law_split_once, law_taken_apart,
    number_text, only, range_of, split_once, starts_with, to_chars, CharClass,
};
use vstd::prelude::*;
use vstd::string::*;

verus! {

/// A file that is older than this many seconds is no longer being written.
pub const STALE_AFTER_SECONDS: u64 = 3600;

/// How often `c` occurs.
pub open spec fn occurrences(s: Seq<char>, c: char) -> nat
    decreases s.len(),
{
    if s.len() == 0 {
        0
    } else {
        occurrences(s.drop_last(), c) + (if s.last() == c {
            1nat
        } else {
            0nat
        })
    }
}

proof fn lemma_occurrences_concat(a: Seq<char>, b: Seq<char>, c: char)
    ensures
        occurrences(a + b, c) == occurrences(a, c) + occurrences(b, c),
    decreases b.len(),
{
    if b.len() == 0 {
        assert(a + b =~= a);
    } else {
        assert((a + b).drop_last() =~= a + b.drop_last());
        lemma_occurrences_concat(a, b.drop_last(), c);
    }
}

/// A number is written in digits, one at least.
pub proof fn lemma_decimal(n: nat)
    ensures
        decimal(n).len() > 0,
        all_in(decimal(n), CharClass::Digit),
        occurrences(decimal(n), '-') == 0,
    decreases n,
{
    if n >= 10 {
        lemma_decimal(n / 10);
        let rest = decimal(n / 10);
        assert(decimal(n).drop_last() =~= rest);
        assert forall|i: int| 0 <= i < decimal(n).len() implies CharClass::Digit.holds(
            #[trigger] decimal(n)[i],
        ) by {
            if i < rest.len() {
                assert(decimal(n)[i] == rest[i]);
            }
        }
    } else {
        assert(decimal(n).drop_last() =~= Seq::empty());
        assert(occurrences(decimal(n).drop_last(), '-') == 0);
    }
}

fn count_of(s: &str, c: char) -> (r: usize)
    ensures
        r == occurrences(s@, c),
{
    let chars = to_chars(s);
    let mut n: usize = 0;
    let mut i: usize = 0;
    while i < chars.len()
        invariant
            chars@ == s@,
            i <= chars@.len(),
            n <= i,
            n == occurrences(s@.take(i as int), c),
        decreases chars@.len() - i,
    {
        assert(s@.take(i + 1).drop_last() =~= s@.take(i as int));
        if chars[i] == c {
            n = n + 1;
        }
        i = i + 1;
    }
    assert(s@.take(i as int) =~= s@);
    n
}

/// What stands between a start and an end that a name has, where the two do
/// not overlap.
pub open spec fn between(name: Seq<char>, start: Seq<char>, end: Seq<char>) -> Option<Seq<char>> {
    if starts_with(name, start) && ends_with(name, end) && start.len() + end.len() <= name.len() {
        Some(name.subrange(start.len() as int, name.len() - end.len()))
    } else {
        None
    }
}

fn middle_of(name: &str, start: &str, end: &str) -> (r: Option<String>)
    ensures
        match r {
            Some(m) => between(name@, start@, end@) == Some(m@),
            None => between(name@, start@, end@) is None,
        },
{
    if !begins_with(name, start) || !finishes_with(name, end) {
        return None;
    }
    let chars = to_chars(name);
    let a: usize = start.unicode_len();
    let b: usize = chars.len() - end.unicode_len();
    if a <= b {
        Some(range_of(chars.as_slice(), a, b))
    } else {
        None
    }
}

proof fn lemma_between(start: Seq<char>, middle: Seq<char>, end: Seq<char>)
    ensures
        between(start + middle + end, start, end) == Some(middle),
{
    let name = start + middle + end;
    assert(name.take(start.len() as int) =~= start);
    assert(name.skip(name.len() - end.len()) =~= end);
    assert(name.subrange(start.len() as int, name.len() - end.len()) =~= middle);
}

/// The name under which the description of the API is written first.
pub open spec fn cache_temp(pid: u32, unique: u128) -> Seq<char> {
    "openapi-cache-"@ + decimal(pid as nat) + "-"@ + decimal(unique as nat) + ".tmp"@
}

/// A name of that shape: two numbers with a hyphen between them.
pub open spec fn is_cache_temp(name: Seq<char>) -> bool {
    match between(name, "openapi-cache-"@, ".tmp"@) {
        Some(m) => {
            &&& m.len() > 0
            &&& all_in(m, CharClass::DigitOrDash)
            &&& occurrences(m, '-') == 1
            &&& m[0] != '-'
            &&& m.last() != '-'
        },
        None => false,
    }
}

/// The name under which the description of the API is written first.
pub fn cache_temp_name(pid: u32, unique: u128) -> (r: String)
    ensures
        r@ == cache_temp(pid, unique),
{
    "openapi-cache-".to_owned().concat(number_text(pid as u128).as_str()).concat("-").concat(
        number_text(unique).as_str(),
    ).concat(".tmp")
}

/// Whether a name is one under which the description of the API is written
/// first. Other files that begin and end alike are not touched.
pub fn is_cache_temp_name(name: &str) -> (r: bool)
    ensures
        r == is_cache_temp(name@),
{
    match middle_of(name, "openapi-cache-", ".tmp") {
        Some(m) => {
            let chars = to_chars(m.as_str());
            chars.len() > 0 && only(m.as_str(), CharClass::DigitOrDash) && count_of(m.as_str(), '-')
                == 1 && chars[0] != '-' && chars[chars.len() - 1] != '-'
        },
        None => false,
    }
}

/// The name under which the file of credentials is written first; `base` is
/// the name of that file.
pub open spec fn credential_temp(base: Seq<char>, pid: u32, nanos: u128, counter: u64) -> Seq<char> {
    base + "."@ + decimal(pid as nat) + "-"@ + decimal(nanos as nat) + "-"@ + decimal(
        counter as nat,
    ) + ".tmp"@
}

/// A name of that shape: digits with two hyphens among them.
pub open spec fn is_credential_temp(name: Seq<char>, base: Seq<char>) -> bool {
    match between(name, base + "."@, ".tmp"@) {
        Some(m) => {
            &&& m.len() > 0
            &&& all_in(m, CharClass::DigitOrDash)
            &&& occurrences(m, '-') == 2
        },
        None => false,
    }
}

/// What the name of a first file of the credentials begins with.
pub open spec fn temp_base(base: Option<Seq<char>>) -> Seq<char> {
    match base {
        Some(b) => b,
        None => "credentials"@,
    }
}

pub open spec fn opt_view(s: Option<&str>) -> Option<Seq<char>> {
    match s {
        Some(t) => Some(t@),
        None => None,
    }
}

/// The name under which the file of credentials is written first.
pub fn credential_temp_name(base: Option<&str>, pid: u32, nanos: u128, counter: u64) -> (r: String)
    ensures
        r@ == credential_temp(temp_base(opt_view(base)), pid, nanos, counter),
{
    let base = match base {
        Some(b) => b,
        None => "credentials",
    };
    base.to_owned().concat(".").concat(number_text(pid as u128).as_str()).concat("-").concat(
        number_text(nanos).as_str(),
    ).concat("-").concat(number_text(counter as u128).as_str()).concat(".tmp")
}

/// Whether a name is one under which the file of credentials is written first.
pub fn is_credential_temp_name(name: &str, base: &str) -> (r: bool)
    ensures
        r == is_credential_temp(name@, base@),
{
    let start = base.to_owned().concat(".");
    match middle_of(name, start.as_str(), ".tmp") {
        Some(m) => m.as_str().unicode_len() > 0 && only(m.as_str(), CharClass::DigitOrDash)
            && count_of(m.as_str(), '-') == 2,
        None => false,
    }
}

/// A file of this age was left behind.
pub open spec fn stale(seconds: u64, nanos: u32) -> bool {
    seconds * 1_000_000_000 + nanos > STALE_AFTER_SECONDS * 1_000_000_000
}

/// A file that was left behind is removed.
pub open spec fn removable(regular: bool, age: Option<(u64, u32)>) -> bool {
    regular && (age matches Some(a) && stale(a.0, a.1))
}

/// Whether a file that was changed this long ago, or this far in the future,
/// was left behind.
pub fn is_stale(seconds: u64, nanos: u32) -> (r: bool)
    ensures
        r == stale(seconds, nanos),
{
    seconds as u128 * 1_000_000_000 + nanos as u128 > STALE_AFTER_SECONDS as u128 * 1_000_000_000
}

/// What is said of a first file that stays.
pub open spec fn kept_leftover(path: Seq<char>, error: Seq<char>) -> Seq<char> {
    "Warning: could not remove stale credential temp file "@ + path + " ("@ + error
        + "); it holds cleartext tokens and should be deleted manually."@
}

/// What is said of a file with tokens that was left behind and stays.
pub fn leftover_warning(path: &str, error: &str) -> (r: String)
    ensures
        r@ == kept_leftover(path@, error@),
{
    "Warning: could not remove stale credential temp file ".to_owned().concat(path).concat(
        " (",
    ).concat(error).concat("); it holds cleartext tokens and should be deleted manually.")
}

/// Whether a file that was left behind is removed: a regular file, old enough.
/// A file whose age is not known stays.
pub fn is_removable(regular: bool, age: Option<(u64, u32)>) -> (r: bool)
    ensures
        r == removable(regular, age),
{
    match age {
        Some((seconds, nanos)) => regular && is_stale(seconds, nanos),
        None => false,
    }
}

/// The names under which the description of the API is written are known
/// again.
pub proof fn law_cache_temp_is_known_again(pid: u32, unique: u128)
    ensures
        is_cache_temp(cache_temp(pid, unique)),
{
    let a = decimal(pid as nat);
    let b = decimal(unique as nat);
    let m = a + "-"@ + b;
    reveal_strlit("-");
    lemma_decimal(pid as nat);
    lemma_decimal(unique as nat);
    lemma_one_dash(a, b);
    assert(cache_temp(pid, unique) =~= "openapi-cache-"@ + m + ".tmp"@);
    lemma_between("openapi-cache-"@, m, ".tmp"@);
    assert(CharClass::Digit.holds(a[0]));
    assert(m[0] == a[0]);
    assert(CharClass::Digit.holds(b.last()));
    assert(m.last() == b.last());
}

proof fn lemma_one_dash(a: Seq<char>, b: Seq<char>)
    requires
        all_in(a, CharClass::DigitOrDash) || all_in(a, CharClass::Digit),
        all_in(b, CharClass::Digit),
        occurrences(b, '-') == 0,
    ensures
        all_in(a + "-"@ + b, CharClass::DigitOrDash),
        occurrences(a + "-"@ + b, '-') == occurrences(a, '-') + 1,
{
    reveal_strlit("-");
    let m = a + "-"@ + b;
    assert forall|i: int| 0 <= i < m.len() implies CharClass::DigitOrDash.holds(#[trigger] m[i]) by {
        if i < a.len() {
            assert(m[i] == a[i]);
        } else if i > a.len() {
            assert(m[i] == b[i - a.len() - 1]);
        } else {
            assert(m[i] == '-');
        }
    }
    lemma_occurrences_concat(a + "-"@, b, '-');
    lemma_occurrences_concat(a, "-"@, '-');
    assert("-"@.drop_last() =~= Seq::empty());
    assert(occurrences("-"@.drop_last(), '-') == 0);
    assert("-"@.last() == '-');
}

/// The names under which the file of credentials is written are known again.
pub proof fn law_credential_temp_is_known_again(base: Seq<char>, pid: u32, nanos: u128, counter: u64)
    ensures
        is_credential_temp(credential_temp(base, pid, nanos, counter), base),
{
    let a = decimal(pid as nat);
    let b = decimal(nanos as nat);
    let c = decimal(counter as nat);
    let m = a + "-"@ + b;
    let whole = m + "-"@ + c;
    lemma_decimal(pid as nat);
    lemma_decimal(nanos as nat);
    lemma_decimal(counter as nat);
    lemma_one_dash(a, b);
    lemma_one_dash(m, c);
    assert(credential_temp(base, pid, nanos, counter) =~= (base + "."@) + whole + ".tmp"@);
    lemma_between(base + "."@, whole, ".tmp"@);
}

/// Only an ordinary file that has not been changed for more than an hour is
/// removed; one whose age is not known stays.
pub proof fn law_fresh_files_stay(regular: bool, seconds: u64, nanos: u32)
    requires
        nanos < 1_000_000_000,
    ensures
        removable(regular, Some((seconds, nanos))) <==> regular && (seconds > 3600 || (seconds == 3600
            && nanos > 0)),
        !removable(regular, None),
{
}

/// Only the names that the program makes are known as its own: those that
/// begin and end alike, with nothing but digits and hyphens between.
pub proof fn law_other_files_are_not_ours(name: Seq<char>, base: Seq<char>)
    ensures
        is_cache_temp(name) ==> starts_with(name, "openapi-cache-"@) && ends_with(name, ".tmp"@)
            && forall|i: int|
            14 <= i < name.len() - 4 ==> CharClass::DigitOrDash.holds(#[trigger] name[i]),
        is_credential_temp(name, base) ==> starts_with(name, base + "."@) && ends_with(
            name,
            ".tmp"@,
        ) && forall|i: int|
            base.len() + 1 <= i < name.len() - 4 ==> CharClass::DigitOrDash.holds(
                #[trigger] name[i],
            ),
{
    reveal_strlit("openapi-cache-");
    reveal_strlit(".tmp");
    reveal_strlit(".");
    if is_cache_temp(name) {
        let m = between(name, "openapi-cache-"@, ".tmp"@)->0;
        assert forall|i: int| 14 <= i < name.len() - 4 implies CharClass::DigitOrDash.holds(
            #[trigger] name[i],
        ) by {
            assert(m[i - 14] == name[i]);
        }
    }
    if is_credential_temp(name, base) {
        let m = between(name, base + "."@, ".tmp"@)->0;
        let n: int = base.len() + 1int;
        assert forall|i: int| n <= i < name.len() - 4 implies CharClass::DigitOrDash.holds(
            #[trigger] name[i],
        ) by {
            assert(m[i - n] == name[i]);
        }
    }
}

/// The names of files that are written first tell which process wrote them, and
/// are made of its number and of numbers of their own.
pub proof fn law_names_of_first_files(
    base: Seq<char>,
    pid: u32,
    unique: u128,
    nanos: u128,
    counter: u64,
)
    ensures
        cache_temp(pid, unique) == "openapi-cache-"@ + decimal(pid as nat) + "-"@ + decimal(
            unique as nat,
        ) + ".tmp"@,
        credential_temp(base, pid, nanos, counter) == base + "."@ + decimal(pid as nat) + "-"@
            + decimal(nanos as nat) + "-"@ + decimal(counter as nat) + ".tmp"@,
{
}

/// A name of the cache is known exactly where two numbers stand in it, with a
/// hyphen between them.
pub proof fn law_cache_names_hold_two_numbers(name: Seq<char>, a: Seq<char>, b: Seq<char>)
    ensures
        a.len() > 0 && b.len() > 0 && all_in(a, CharClass::Digit) && all_in(b, CharClass::Digit)
            ==> is_cache_temp("openapi-cache-"@ + (a + seq!['-'] + b) + ".tmp"@),
        is_cache_temp(name) ==> exists|x: Seq<char>, y: Seq<char>|
            x.len() > 0 && y.len() > 0 && all_in(x, CharClass::Digit) && all_in(
                y,
                CharClass::Digit,
            ) && name == "openapi-cache-"@ + #[trigger] (x + seq!['-'] + y) + ".tmp"@,
{
    if a.len() > 0 && b.len() > 0 && all_in(a, CharClass::Digit) && all_in(b, CharClass::Digit) {
        let m = a + seq!['-'] + b;
        lemma_between("openapi-cache-"@, m, ".tmp"@);
        lemma_no_dash(a);
        lemma_no_dash(b);
        lemma_occurrences_concat(a + seq!['-'], b, '-');
        lemma_occurrences_concat(a, seq!['-'], '-');
        assert(occurrences(seq!['-'], '-') == 1) by {
            assert(seq!['-'].drop_last() =~= Seq::<char>::empty());
            assert(occurrences(seq!['-'].drop_last(), '-') == 0);
        }
        assert forall|i: int| 0 <= i < m.len() implies CharClass::DigitOrDash.holds(
            #[trigger] m[i],
        ) by {
            if i < a.len() {
                assert(m[i] == a[i]);
                assert(CharClass::Digit.holds(a[i]));
            } else if i > a.len() {
                assert(m[i] == b[i - a.len() - 1]);
                assert(CharClass::Digit.holds(b[i - a.len() - 1]));
            }
        }
        assert(m[0] == a[0] && CharClass::Digit.holds(a[0]));
        assert(m.last() == b.last() && CharClass::Digit.holds(b[b.len() - 1]));
    }
    if is_cache_temp(name) {
        let m = between(name, "openapi-cache-"@, ".tmp"@)->0;
        law_taken_apart(name, "openapi-cache-"@);
        law_taken_apart(name, ".tmp"@);
        assert(name =~= "openapi-cache-"@ + m + ".tmp"@);
        law_split_once(m, '-');
        if split_once(m, '-') is None {
            lemma_none_without(m, '-');
        }
        let p = split_once(m, '-')->0;
        lemma_none_without(p.0, '-');
        lemma_occurrences_concat(p.0 + seq!['-'], p.1, '-');
        lemma_occurrences_concat(p.0, seq!['-'], '-');
        assert(occurrences(seq!['-'], '-') == 1) by {
            assert(seq!['-'].drop_last() =~= Seq::<char>::empty());
            assert(occurrences(seq!['-'].drop_last(), '-') == 0);
        }
        assert(occurrences(p.1, '-') == 0);
        lemma_none_found(p.1, '-');
        assert forall|i: int| 0 <= i < p.0.len() implies CharClass::Digit.holds(
            #[trigger] p.0[i],
        ) by {
            assert(m[i] == p.0[i]);
            assert(CharClass::DigitOrDash.holds(m[i]));
            assert(p.0.contains(p.0[i]));
        }
        assert forall|i: int| 0 <= i < p.1.len() implies CharClass::Digit.holds(
            #[trigger] p.1[i],
        ) by {
            assert(m[i + p.0.len() + 1] == p.1[i]);
            assert(CharClass::DigitOrDash.holds(m[i + p.0.len() + 1]));
            assert(p.1.contains(p.1[i]));
        }
        if p.0.len() == 0 {
            assert(m[0] == '-');
        }
        if p.1.len() == 0 {
            assert(m.last() == '-');
        }
        assert(m == p.0 + seq!['-'] + p.1);
    }
}

proof fn lemma_no_dash(s: Seq<char>)
    requires
        all_in(s, CharClass::Digit),
    ensures
        occurrences(s, '-') == 0,
{
    assert forall|i: int| 0 <= i < s.len() implies #[trigger] s[i] != '-' by {
        assert(CharClass::Digit.holds(s[i]));
    }
    lemma_none_without(s, '-');
}

proof fn lemma_none_without(s: Seq<char>, c: char)
    requires
        !s.contains(c),
    ensures
        occurrences(s, c) == 0,
    decreases s.len(),
{
    if s.len() > 0 {
        assert(s.contains(s[s.len() - 1]));
        assert forall|i: int| 0 <= i < s.drop_last().len() implies s.drop_last()[i] != c by {
            assert(s.contains(s[i]));
        }
        lemma_none_without(s.drop_last(), c);
    }
}

proof fn lemma_none_found(s: Seq<char>, c: char)
    requires
        occurrences(s, c) == 0,
    ensures
        !s.contains(c),
    decreases s.len(),
{
    if s.len() > 0 {
        lemma_none_found(s.drop_last(), c);
        assert forall|i: int| 0 <= i < s.len() implies s[i] != c by {
            if i < s.len() - 1 {
                assert(s.drop_last()[i] == s[i]);
                assert(s.drop_last().contains(s[i]));
            }
        }
    }
}

/// A name of the credentials is known exactly where digits with two hyphens
/// among them stand in it.
pub proof fn law_credential_names(base: Seq<char>, m: Seq<char>)
    ensures
        is_credential_temp(base + "."@ + m + ".tmp"@, base) <==> m.len() > 0 && all_in(
            m,
            CharClass::DigitOrDash,
        ) && occurrences(m, '-') == 2,
        occurrences(m.push('-'), '-') == occurrences(m, '-') + 1,
        occurrences(m.push('0'), '-') == occurrences(m, '-'),
{
    lemma_between(base + "."@, m, ".tmp"@);
    assert(m.push('-').drop_last() =~= m);
    assert(m.push('0').drop_last() =~= m);
}

/// A first file of the credentials is named after the file it becomes, and
/// after the credentials where that has no name; one that stays is told with the
/// cause.
pub proof fn law_first_files_are_named(b: Seq<char>, path: Seq<char>, error: Seq<char>)
    ensures
        temp_base(Some(b)) == b,
        temp_base(None) == "credentials"@,
        starts_with(
            kept_leftover(path, error),
            "Warning: could not remove stale credential temp file "@ + path + " ("@ + error + ")"@,
        ),
{
    let start = "Warning: could not remove stale credential temp file "@ + path + " ("@ + error
        + ")"@;
    reveal_strlit(")");
    reveal_strlit("); it holds cleartext tokens and should be deleted manually.");
    assert(kept_leftover(path, error).take(start.len() as int) =~= start);
}

} // verus!
