//! The pid file: one daemon at a time.
use crate::text::push_decimal;
use vstd::prelude::*;

verus! {

/// Unicode white space.
pub open spec fn is_white(c: char) -> bool {
    ||| '\u{9}' <= c <= '\u{d}'
    ||| c == ' '
    ||| c == '\u{85}'
    ||| c == '\u{a0}'
    ||| c == '\u{1680}'
    ||| '\u{2000}' <= c <= '\u{200a}'
    ||| c == '\u{2028}'
    ||| c == '\u{2029}'
    ||| c == '\u{202f}'
    ||| c == '\u{205f}'
    ||| c == '\u{3000}'
}

fn white(c: char) -> (r: bool)
    ensures
        r == is_white(c),
{
    ('\u{9}' <= c && c <= '\u{d}') || c == ' ' || c == '\u{85}' || c == '\u{a0}' || c == '\u{1680}'
        || ('\u{2000}' <= c && c <= '\u{200a}') || c == '\u{2028}' || c == '\u{2029}' || c
        == '\u{202f}' || c == '\u{205f}' || c == '\u{3000}'
}

/// `s` without the white space at its front.
pub open spec fn trim_front(s: Seq<char>) -> Seq<char>
    decreases s.len(),
{
    if s.len() > 0 && is_white(s[0]) {
        trim_front(s.drop_first())
    } else {
        s
    }
}

/// `s` without the white space at its end.
pub open spec fn trim_back(s: Seq<char>) -> Seq<char>
    decreases s.len(),
{
    if s.len() > 0 && is_white(s.last()) {
        trim_back(s.drop_last())
    } else {
        s
    }
}

/// `s` without the white space around it.
pub open spec fn trimmed(s: Seq<char>) -> Seq<char> {
    trim_back(trim_front(s))
}

pub open spec fn is_digit(c: char) -> bool {
    '0' <= c <= '9'
}

pub open spec fn all_digits(s: Seq<char>) -> bool {
    forall|i: int| 0 <= i < s.len() ==> is_digit(#[trigger] s[i])
}

/// The number that a run of decimal digits names.
pub open spec fn digits_value(s: Seq<char>) -> int
    decreases s.len(),
{
    if s.len() == 0 {
        0
    } else {
        digits_value(s.drop_last()) * 10 + (s.last() as int - '0' as int)
    }
}

/// The digits of a number text: what follows its sign, where it has one.
pub open spec fn magnitude(s: Seq<char>) -> Seq<char> {
    if s.len() > 0 && (s[0] == '-' || s[0] == '+') {
        s.drop_first()
    } else {
        s
    }
}

/// The number that a text names.
pub open spec fn number_value(s: Seq<char>) -> int {
    if s.len() > 0 && s[0] == '-' {
        -digits_value(magnitude(s))
    } else {
        digits_value(magnitude(s))
    }
}

/// The 32-bit number that a text names, where it names one: an optional sign
/// and then at least one digit and nothing else.
pub open spec fn parsed_i32(s: Seq<char>) -> Option<i32> {
    if magnitude(s).len() > 0 && all_digits(magnitude(s)) && i32::MIN <= number_value(s)
        <= i32::MAX {
        Some(number_value(s) as i32)
    } else {
        None
    }
}

/// The process id in the text of a pid file, where there is one.
pub open spec fn pid_in(contents: Seq<char>) -> Option<i32> {
    parsed_i32(trimmed(contents))
}

proof fn lemma_trim_front(s: Seq<char>, i: int)
    requires
        0 <= i <= s.len(),
        forall|k: int| 0 <= k < i ==> is_white(#[trigger] s[k]),
        i < s.len() ==> !is_white(s[i]),
    ensures
        trim_front(s) == s.skip(i),
    decreases i,
{
    if i > 0 {
        assert(is_white(s[0]));
        let t = s.drop_first();
        assert forall|k: int| 0 <= k < i - 1 implies is_white(#[trigger] t[k]) by {
            assert(t[k] == s[k + 1]);
        }
        lemma_trim_front(t, i - 1);
        assert(t.skip(i - 1) =~= s.skip(i));
    } else {
        assert(s.skip(0) =~= s);
    }
}

proof fn lemma_trim_back(s: Seq<char>, n: int)
    requires
        0 <= n <= s.len(),
        forall|k: int| n <= k < s.len() ==> is_white(#[trigger] s[k]),
        n > 0 ==> !is_white(s[n - 1]),
    ensures
        trim_back(s) == s.take(n),
    decreases s.len() - n,
{
    if n < s.len() {
        assert(is_white(s[s.len() - 1]));
        let t = s.drop_last();
        assert forall|k: int| n <= k < t.len() implies is_white(#[trigger] t[k]) by {
            assert(t[k] == s[k]);
        }
        lemma_trim_back(t, n);
        assert(t.take(n) =~= s.take(n));
    } else {
        assert(s.take(n) =~= s);
    }
}

/// A longer run of digits names no smaller number.
proof fn lemma_digits_value_grows(s: Seq<char>, i: int)
    requires
        all_digits(s),
        0 <= i <= s.len(),
    ensures
        0 <= digits_value(s.take(i)) <= digits_value(s),
    decreases s.len(),
{
    if i == s.len() {
        assert(s.take(i) =~= s);
        lemma_digits_value_nonnegative(s);
    } else {
        let t = s.drop_last();
        assert forall|k: int| 0 <= k < t.len() implies is_digit(#[trigger] t[k]) by {
            assert(t[k] == s[k]);
        }
        lemma_digits_value_grows(t, i);
        assert(t.take(i) =~= s.take(i));
        assert(is_digit(s[s.len() - 1]));
    }
}

proof fn lemma_digits_value_nonnegative(s: Seq<char>)
    requires
        all_digits(s),
    ensures
        0 <= digits_value(s),
    decreases s.len(),
{
    if s.len() > 0 {
        let t = s.drop_last();
        assert forall|k: int| 0 <= k < t.len() implies is_digit(#[trigger] t[k]) by {
            assert(t[k] == s[k]);
        }
        lemma_digits_value_nonnegative(t);
        assert(is_digit(s[s.len() - 1]));
    }
}

/// The process id in the text of a pid file, where there is one. White space
/// around it does not count.
pub fn parse_pid(contents: &str) -> (pid: Option<i32>)
    ensures
        pid == pid_in(contents@),
{
    let n: usize = contents.unicode_len();
    let mut start: usize = 0;
    while start < n && white(contents.get_char(start))
        invariant
            start <= n,
            n == contents@.len(),
            forall|k: int| 0 <= k < start ==> is_white(#[trigger] contents@[k]),
        ensures
            start <= n,
            forall|k: int| 0 <= k < start ==> is_white(#[trigger] contents@[k]),
            start < n ==> !is_white(contents@[start as int]),
        decreases n - start,
    {
        start = start + 1;
    }
    let ghost front = contents@.skip(start as int);
    proof {
        lemma_trim_front(contents@, start as int);
    }
    let mut end: usize = n;
    while end > start && white(contents.get_char(end - 1))
        invariant
            start <= end <= n,
            n == contents@.len(),
            forall|k: int| end <= k < n ==> is_white(#[trigger] contents@[k]),
        ensures
            start <= end <= n,
            forall|k: int| end <= k < n ==> is_white(#[trigger] contents@[k]),
            end > start ==> !is_white(contents@[end - 1]),
        decreases end - start,
    {
        end = end - 1;
    }
    let ghost text = contents@.subrange(start as int, end as int);
    proof {
        assert forall|k: int| end - start <= k < front.len() implies is_white(
            #[trigger] front[k],
        ) by {
            assert(front[k] == contents@[k + start]);
        }
        lemma_trim_back(front, end - start);
        assert(front.take(end - start) =~= text);
    }
    if start == end {
        return None;
    }
    let first: char = contents.get_char(start);
    let negative: bool = first == '-';
    let mut i: usize = start;
    if first == '-' || first == '+' {
        i = i + 1;
    }
    let body: usize = i;
    let ghost mag = magnitude(text);
    assert(mag =~= contents@.subrange(body as int, end as int));
    if body == end {
        return None;
    }
    let mut value: i64 = 0;
    assert(mag.take(0) =~= Seq::<char>::empty());
    while i < end
        invariant
            body <= i <= end,
            end <= n,
            n == contents@.len(),
            mag == contents@.subrange(body as int, end as int),
            mag == magnitude(text),
            text == trimmed(contents@),
            negative == (text.len() > 0 && text[0] == '-'),
            0 <= value <= 2_147_483_648,
            value == digits_value(mag.take(i - body)),
            all_digits(mag.take(i - body)),
        decreases end - i,
    {
        let c: char = contents.get_char(i);
        let ghost k = i - body;
        assert(mag[k] == c);
        if c < '0' || c > '9' {
            assert(!is_digit(mag[k]));
            return None;
        }
        let d: i64 = (c as u32 - '0' as u32) as i64;
        value = value * 10 + d;
        proof {
            let next = mag.take(k + 1);
            assert(next.drop_last() =~= mag.take(k));
            assert(next.last() == c);
            assert forall|j: int| 0 <= j < next.len() implies is_digit(#[trigger] next[j]) by {
                if j < k {
                    assert(mag.take(k)[j] == next[j]);
                }
            }
        }
        if value > 2_147_483_648 {
            proof {
                if all_digits(mag) {
                    lemma_digits_value_grows(mag, k + 1);
                }
            }
            return None;
        }
        i = i + 1;
    }
    assert(mag.take(end - body) =~= mag);
    if negative {
        Some((-value) as i32)
    } else if value <= 2_147_483_647 {
        Some(value as i32)
    } else {
        None
    }
}

/// The text that goes into a pid file.
pub fn pid_text(pid: u32) -> (s: String)
    ensures
        s@ == crate::text::decimal(pid as nat),
{
    let mut s: String = String::new();
    push_decimal(&mut s, pid as u64);
    assert(s@ =~= crate::text::decimal(pid as nat));
    s
}

proof fn lemma_decimal(n: nat)
    ensures
        crate::text::decimal(n).len() > 0,
        all_digits(crate::text::decimal(n)),
        digits_value(crate::text::decimal(n)) == n,
    decreases n,
{
    let d = crate::text::decimal(n);
    if n < 10 {
        assert(d.drop_last() =~= Seq::<char>::empty());
        assert(digits_value(d.drop_last()) == 0);
    } else {
        lemma_decimal(n / 10);
        assert(d.drop_last() =~= crate::text::decimal(n / 10));
        assert forall|i: int| 0 <= i < d.len() implies is_digit(#[trigger] d[i]) by {
            if i < d.len() - 1 {
                assert(d.drop_last()[i] == d[i]);
            }
        }
    }
}

/// A pid that was written is read back, for every pid that a signal can be
/// sent to.
pub proof fn law_a_pid_reads_back(pid: u32)
    requires
        pid <= i32::MAX,
    ensures
        pid_in(crate::text::decimal(pid as nat)) == Some(pid as i32),
{
    let d = crate::text::decimal(pid as nat);
    lemma_decimal(pid as nat);
    assert(is_digit(d[0]));
    assert(is_digit(d[d.len() - 1]));
    lemma_trim_front(d, 0);
    assert(d.skip(0) =~= d);
    lemma_trim_back(d, d.len() as int);
    assert(d.take(d.len() as int) =~= d);
}

/// Another daemon has the pid file.
#[derive(Clone, Copy, Debug, PartialEq, Eq, Structural)]
pub struct AlreadyRunning {
    pub pid: i32,
}

impl AlreadyRunning {
    pub fn to_string(&self) -> (s: String)
        ensures
            s@ == "rgsp-host already running as pid "@ + crate::text::signed_decimal(
                self.pid as int,
            ),
    {
        let mut s: String = String::from_str("rgsp-host already running as pid ");
        crate::text::push_signed(&mut s, self.pid as i64);
        s
    }
}

/// A pid file that a single daemon holds for its lifetime.
///
/// A file left behind by a killed process must not lock the daemon out for
/// good, so a file whose process is not running is taken over.
#[derive(Debug)]
pub struct PidFile {
    path: String,
}

impl PidFile {
    pub closed spec fn location(self) -> Seq<char> {
        self.path@
    }

    /// Which process to look for before the file at hand may be taken over:
    /// the one its contents name, if it exists and names one.
    pub fn holder(existing: Option<&str>) -> (pid: Option<i32>)
        ensures
            pid == match existing {
                Some(s) => pid_in(s@),
                None => None,
            },
    {
        match existing {
            Some(s) => parse_pid(s),
            None => None,
        }
    }

    /// Takes the file at `path`, unless the process that its contents name is
    /// alive. `existing` is what is in it, where there is such a file, and
    /// `holder_alive` is what is known of the process that `holder` finds
    /// there.
    pub fn acquire(path: String, existing: Option<&str>, holder_alive: bool) -> (r: Result<
        PidFile,
        AlreadyRunning,
    >)
        ensures
            match r {
                Ok(f) => !(existing matches Some(s) && pid_in(s@) is Some && holder_alive)
                    && f.location() == path@,
                Err(e) => existing matches Some(s) && pid_in(s@) == Some(e.pid) && holder_alive,
            },
    {
        if let Some(pid) = PidFile::holder(existing) {
            if holder_alive {
                return Err(AlreadyRunning { pid });
            }
        }
        Ok(PidFile { path })
    }

    /// Gives the file up: returns the path to remove.
    pub fn release(self) -> (path: String)
        ensures
            path@ == self.location(),
    {
        self.path
    }
}

/// A number that is written reads back as itself, in digits only, and without
/// a zero in front of it unless it is zero.
pub proof fn law_a_number_reads_back(n: nat)
    ensures
        digits_value(crate::text::decimal(n)) == n,
        all_digits(crate::text::decimal(n)),
        n > 0 ==> crate::text::decimal(n)[0] != '0',
    decreases n,
{
    lemma_decimal(n);
    if n >= 10 {
        law_a_number_reads_back(n / 10);
        lemma_decimal(n / 10);
        assert(crate::text::decimal(n)[0] == crate::text::decimal(n / 10)[0]);
    }
}

/// Reading digits is place by place: one more digit counts ten times what came
/// before and then the digit itself.
pub proof fn law_digits_count_by_tens(front: Seq<char>, d: int)
    requires
        0 <= d < 10,
    ensures
        digits_value(front.push((48 + d) as char)) == 10 * digits_value(front) + d,
        digits_value(Seq::empty()) == 0,
{
    assert(front.push((48 + d) as char).drop_last() =~= front);
}

/// Space and line ends around a pid do not count, and neither does a plus sign
/// in front of it; a minus sign makes it negative.
pub proof fn law_a_pid_is_found_in_its_surroundings(before: Seq<char>, pid: u32, after: Seq<char>)
    requires
        pid <= i32::MAX,
        forall|i: int|
            0 <= i < before.len() ==> (#[trigger] before[i]) == ' ' || before[i] == '\n' || before[i]
                == '\t' || before[i] == '\r',
        forall|i: int|
            0 <= i < after.len() ==> (#[trigger] after[i]) == ' ' || after[i] == '\n' || after[i]
                == '\t' || after[i] == '\r',
    ensures
        pid_in(before + crate::text::decimal(pid as nat) + after) == Some(pid as i32),
        pid_in(before + seq!['+'] + crate::text::decimal(pid as nat) + after) == Some(pid as i32),
        pid_in(before + seq!['-'] + crate::text::decimal(pid as nat) + after) == Some((-pid) as i32),
{
    let d = crate::text::decimal(pid as nat);
    lemma_decimal(pid as nat);
    assert(is_digit(d[0]));
    assert(is_digit(d[d.len() - 1]));
    lemma_trimmed_middle(before, d, after);
    let plus = seq!['+'] + d;
    let minus = seq!['-'] + d;
    assert(plus.last() == d.last());
    assert(minus.last() == d.last());
    lemma_trimmed_middle(before, plus, after);
    lemma_trimmed_middle(before, minus, after);
    assert(before + plus + after =~= before + seq!['+'] + d + after);
    assert(before + minus + after =~= before + seq!['-'] + d + after);
    assert(plus.drop_first() =~= d);
    assert(minus.drop_first() =~= d);
}

proof fn lemma_trimmed_middle(before: Seq<char>, s: Seq<char>, after: Seq<char>)
    requires
        s.len() > 0,
        !is_white(s[0]),
        !is_white(s.last()),
        forall|i: int| 0 <= i < before.len() ==> is_white(#[trigger] before[i]),
        forall|i: int| 0 <= i < after.len() ==> is_white(#[trigger] after[i]),
    ensures
        trimmed(before + s + after) == s,
{
    let all = before + s + after;
    let n = before.len() as int;
    assert forall|k: int| 0 <= k < n implies is_white(#[trigger] all[k]) by {
        assert(all[k] == before[k]);
    }
    assert(all[n] == s[0]);
    lemma_trim_front(all, n);
    let rest = all.skip(n);
    assert(rest =~= s + after);
    let m = s.len() as int;
    assert(rest[m - 1] == s.last());
    assert forall|k: int| m <= k < rest.len() implies is_white(#[trigger] rest[k]) by {
        assert(rest[k] == after[k - m]);
    }
    lemma_trim_back(rest, m);
    assert(rest.take(m) =~= s);
}

/// A text with a letter or any other mark in it names no pid, and neither does
/// an empty one.
pub proof fn law_a_mark_makes_it_no_pid(contents: Seq<char>, i: int)
    requires
        contents.len() == 0 || 0 <= i < contents.len() && !is_white(contents[i]) && !('0'
            <= contents[i] <= '9') && contents[i] != '-' && contents[i] != '+',
    ensures
        pid_in(contents) is None,
{
    if contents.len() == 0 {
        assert(trimmed(contents) =~= contents);
    } else {
        lemma_mark_survives_trimming(contents, i);
        let s = trimmed(contents);
        let k = choose|k: int| 0 <= k < s.len() && s[k] == contents[i];
        if pid_in(contents) is Some {
            let m = magnitude(s);
            if s[0] == '-' || s[0] == '+' {
                assert(k > 0);
                assert(m[k - 1] == s[k]);
                assert(is_digit(m[k - 1]));
            } else {
                assert(is_digit(m[k]));
            }
        }
    }
}

proof fn lemma_mark_survives_trimming(s: Seq<char>, i: int)
    requires
        0 <= i < s.len(),
        !is_white(s[i]),
    ensures
        trimmed(s).contains(s[i]),
    decreases s.len(),
{
    if is_white(s[0]) {
        let t = s.drop_first();
        assert(t[i - 1] == s[i]);
        lemma_mark_survives_trimming(t, i - 1);
        assert(trimmed(s) == trimmed(t));
    } else {
        assert(trim_front(s) == s);
        lemma_mark_survives_trim_back(s, i);
    }
}

proof fn lemma_mark_survives_trim_back(s: Seq<char>, i: int)
    requires
        0 <= i < s.len(),
        !is_white(s[i]),
    ensures
        trim_back(s).contains(s[i]),
    decreases s.len(),
{
    if is_white(s.last()) {
        let t = s.drop_last();
        assert(t[i] == s[i]);
        lemma_mark_survives_trim_back(t, i);
        assert(trim_back(s) == trim_back(t));
    } else {
        assert(trim_back(s) == s);
        assert(trim_back(s)[i] == s[i]);
    }
}

/// A number with its sign reads back as itself.
pub proof fn law_a_signed_number_reads_back(n: int)
    ensures
        number_value(crate::text::signed_decimal(n)) == n,
        n < 0 <==> crate::text::signed_decimal(n)[0] == '-',
{
    let m: nat = if n < 0 {
        (-n) as nat
    } else {
        n as nat
    };
    let d = crate::text::decimal(m);
    lemma_decimal(m);
    assert(is_digit(d[0]));
    if n < 0 {
        assert((seq!['-'] + d).drop_first() =~= d);
    }
}

} // verus!
