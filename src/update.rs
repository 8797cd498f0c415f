//! Update checks: comparing version strings, the outcome of a check, and how
//! the program was installed.

use vstd::prelude::*;

verus! {

/// An ASCII decimal digit.
pub open spec fn is_digit(c: char) -> bool {
    '0' <= c && c <= '9'
}

/// The value of a string of decimal digits.
pub open spec fn digits_value(d: Seq<char>) -> int
    decreases d.len(),
{
    if d.len() == 0 {
        0
    } else {
        digits_value(d.drop_last()) * 10 + (d.last() as int - '0' as int)
    }
}

/// Every character of `d` is a decimal digit.
pub open spec fn all_digits(d: Seq<char>) -> bool {
    forall|i: int| 0 <= i < d.len() ==> is_digit(#[trigger] d[i])
}

/// What `str::parse::<u32>` gives: an optional '+', then one or more
/// decimal digits whose value fits in a `u32`; nothing otherwise.
pub open spec fn parse_u32_of(s: Seq<char>) -> Option<u32> {
    let d = if s.len() > 0 && s[0] == '+' {
        s.drop_first()
    } else {
        s
    };
    if d.len() > 0 && all_digits(d) && digits_value(d) <= u32::MAX {
        Some(digits_value(d) as u32)
    } else {
        None
    }
}

/// The pieces of `s` between '.' characters (one more than there are dots).
pub open spec fn dot_segments(s: Seq<char>) -> Seq<Seq<char>>
    decreases s.len(),
{
    if s.len() == 0 {
        seq![Seq::<char>::empty()]
    } else {
        let p = dot_segments(s.drop_last());
        if s.last() == '.' {
            p.push(Seq::<char>::empty())
        } else {
            p.update(p.len() - 1, p.last().push(s.last()))
        }
    }
}

/// The numbers of the segments that parse, in order.
pub open spec fn parsed_parts(segs: Seq<Seq<char>>) -> Seq<u32>
    decreases segs.len(),
{
    if segs.len() == 0 {
        Seq::empty()
    } else {
        parsed_parts(segs.drop_last()) + match parse_u32_of(segs.last()) {
            Some(v) => seq![v],
            None => Seq::<u32>::empty(),
        }
    }
}

/// The numeric components of a version string; pieces that are not numbers
/// are skipped.
pub open spec fn version_parts(s: Seq<char>) -> Seq<u32> {
    parsed_parts(dot_segments(s))
}

/// Component `i`, 0 when absent.
pub open spec fn part_at(p: Seq<u32>, i: int) -> u32 {
    if 0 <= i < p.len() {
        p[i]
    } else {
        0
    }
}

/// `latest` is newer than `current` on the first three components
/// (major, minor, patch), compared in order; missing components count as 0.
pub open spec fn newer_than(latest: Seq<u32>, current: Seq<u32>) -> bool {
    let (l0, l1, l2) = (part_at(latest, 0), part_at(latest, 1), part_at(latest, 2));
    let (c0, c1, c2) = (part_at(current, 0), part_at(current, 1), part_at(current, 2));
    l0 > c0 || (l0 == c0 && (l1 > c1 || (l1 == c1 && l2 > c2)))
}

proof fn lemma_dot_segments_nonempty(s: Seq<char>)
    ensures
        dot_segments(s).len() >= 1,
    decreases s.len(),
{
    if s.len() > 0 {
        lemma_dot_segments_nonempty(s.drop_last());
    }
}

proof fn lemma_digits_grow(d: Seq<char>, k: int)
    requires
        0 <= k <= d.len(),
        forall|i: int| 0 <= i < d.len() ==> is_digit(#[trigger] d[i]),
    ensures
        digits_value(d.subrange(0, k)) <= digits_value(d),
        0 <= digits_value(d.subrange(0, k)),
    decreases d.len(),
{
    if k < d.len() {
        let p = d.drop_last();
        assert forall|i: int| 0 <= i < p.len() implies is_digit(#[trigger] p[i]) by {
            assert(p[i] == d[i]);
        }
        lemma_digits_grow(p, k);
        assert(p.subrange(0, k) =~= d.subrange(0, k));
        lemma_digits_grow(p, p.len() as int);
        assert(p.subrange(0, p.len() as int) =~= p);
    } else {
        assert(d.subrange(0, k) =~= d);
        if d.len() > 0 {
            let p = d.drop_last();
            assert forall|i: int| 0 <= i < p.len() implies is_digit(#[trigger] p[i]) by {
                assert(p[i] == d[i]);
            }
            lemma_digits_grow(p, p.len() as int);
            assert(p.subrange(0, p.len() as int) =~= p);
        }
    }
}

/// Reads a decimal number as `str::parse::<u32>` does (see `parse_u32_of`).
pub fn parse_u32(s: &str) -> (r: Option<u32>)
    ensures
        r == parse_u32_of(s@),
{
    let n = s.unicode_len();
    let mut start: usize = 0;
    if n > 0 && s.get_char(0) == '+' {
        start = 1;
    }
    let ghost d = if s@.len() > 0 && s@[0] == '+' {
        s@.drop_first()
    } else {
        s@
    };
    assert(d =~= s@.subrange(start as int, n as int));
    if start >= n {
        return None;
    }
    let mut v: u32 = 0;
    let mut i: usize = start;
    while i < n
        invariant
            start <= i <= n == s@.len(),
            d =~= s@.subrange(start as int, n as int),
            d == (if s@.len() > 0 && s@[0] == '+' {
                s@.drop_first()
            } else {
                s@
            }),
            forall|j: int| 0 <= j < i - start ==> is_digit(#[trigger] d[j]),
            v == digits_value(d.subrange(0, i - start)),
        decreases n - i,
    {
        let c = s.get_char(i);
        let ghost k = i - start;
        assert(d[k] == c);
        assert(d.subrange(0, k + 1).drop_last() =~= d.subrange(0, k));
        if !('0' <= c && c <= '9') {
            assert(!is_digit(d[k]));
            return None;
        }
        let digit = (c as u32) - ('0' as u32);
        if v > (u32::MAX - digit) / 10 {
            proof {
                assert(d.subrange(0, k + 1).last() == c);
                assert(digits_value(d.subrange(0, k + 1)) == v * 10 + digit);
                assert(v * 10 + digit > u32::MAX) by (nonlinear_arith)
                    requires
                        v > (u32::MAX - digit) / 10,
                        digit <= 9,
                ;
                if all_digits(d) {
                    lemma_digits_grow(d, k + 1);
                }
            }
            return None;
        }
        v = v * 10 + digit;
        i += 1;
    }
    proof {
        assert(d.subrange(0, d.len() as int) =~= d);
    }
    Some(v)
}

/// Splits at '.', parses each piece, and keeps the numbers (see `version_parts`).
fn parse_version(s: &str) -> (r: Vec<u32>)
    ensures
        r@ == version_parts(s@),
{
    let n = s.unicode_len();
    let mut parts: Vec<u32> = Vec::new();
    let mut seg_start: usize = 0;
    let mut i: usize = 0;
    let ghost mut done: Seq<Seq<char>> = Seq::empty();
    proof {
        assert(s@.subrange(0, 0) =~= Seq::<char>::empty());
        assert(dot_segments(Seq::<char>::empty()) =~= done.push(s@.subrange(0, 0)));
    }
    while i < n
        invariant
            seg_start <= i <= n == s@.len(),
            dot_segments(s@.subrange(0, i as int)) == done.push(s@.subrange(seg_start as int, i as int)),
            parts@ == parsed_parts(done),
        decreases n - i,
    {
        let c = s.get_char(i);
        let ghost pre = s@.subrange(0, i as int);
        let ghost cur = s@.subrange(seg_start as int, i as int);
        proof {
            assert(s@.subrange(0, i as int + 1).drop_last() =~= pre);
            assert(s@.subrange(0, i as int + 1).last() == c);
        }
        if c == '.' {
            let piece = s.substring_char(seg_start, i);
            match parse_u32(piece) {
                Some(x) => parts.push(x),
                None => {},
            }
            proof {
                assert(done.push(cur).drop_last() =~= done);
                assert(parts@ =~= parsed_parts(done.push(cur)));
                done = done.push(cur);
                assert(s@.subrange(i as int + 1, i as int + 1) =~= Seq::<char>::empty());
            }
            seg_start = i + 1;
        } else {
            proof {
                assert(s@.subrange(seg_start as int, i as int + 1) =~= cur.push(c));
                assert(done.push(cur).update(done.len() as int, cur.push(c)) =~= done.push(cur.push(c)));
            }
        }
        i += 1;
    }
    let ghost cur = s@.subrange(seg_start as int, n as int);
    let piece = s.substring_char(seg_start, n);
    match parse_u32(piece) {
        Some(x) => parts.push(x),
        None => {},
    }
    proof {
        assert(s@.subrange(0, n as int) =~= s@);
        assert(done.push(cur).drop_last() =~= done);
        assert(parts@ =~= parsed_parts(done.push(cur)));
    }
    parts
}

/// Whether version `latest` is newer than `current` (see `newer_than`).
pub fn version_is_newer(latest: &str, current: &str) -> (r: bool)
    ensures
        r == newer_than(version_parts(latest@), version_parts(current@)),
{
    let l = parse_version(latest);
    let c = parse_version(current);
    let mut i: usize = 0;
    while i < 3
        invariant
            i <= 3,
            l@ == version_parts(latest@),
            c@ == version_parts(current@),
            forall|j: int| 0 <= j < i ==> part_at(l@, j) == part_at(c@, j),
        decreases 3 - i,
    {
        let lv: u32 = if i < l.len() {
            l[i]
        } else {
            0
        };
        let cv: u32 = if i < c.len() {
            c[i]
        } else {
            0
        };
        if lv > cv {
            return true;
        }
        if lv < cv {
            return false;
        }
        i += 1;
    }
    false
}

/// Result of a version check.
#[derive(Debug, Clone, PartialEq, Eq)]
pub enum VersionCheck {
    /// Running the latest version
    UpToDate,
    /// A newer version is available
    UpdateAvailable { latest: String, current: String },
    /// Could not check (network error, etc.)
    CheckFailed(String),
}

/// The outcome of a check that found `latest` as the newest published
/// version (None when the answer held no version) while `current` runs.
pub fn version_check_from(latest: Option<String>, current: &str) -> (r: VersionCheck)
    ensures
        match latest {
            None => r matches VersionCheck::CheckFailed(m) && m@ == "Could not parse crates.io response"@,
            Some(l) => if newer_than(version_parts(l@), version_parts(current@)) {
                r matches VersionCheck::UpdateAvailable { latest: a, current: b } && a@ == l@ && b@ == current@
            } else {
                r == VersionCheck::UpToDate
            },
        },
{
    match latest {
        None => VersionCheck::CheckFailed(String::from_str("Could not parse crates.io response")),
        Some(l) => {
            if version_is_newer(l.as_str(), current) {
                VersionCheck::UpdateAvailable { latest: l, current: String::from_str(current) }
            } else {
                VersionCheck::UpToDate
            }
        },
    }
}

/// How the program was installed.
#[derive(Debug, Clone, PartialEq, Eq)]
pub enum PackageManager {
    Cargo,
    Homebrew { formula: String },
}

impl PackageManager {
    /// The display name.
    pub fn name(&self) -> (r: &'static str)
        ensures
            r@ == match self {
                PackageManager::Cargo => "cargo"@,
                PackageManager::Homebrew { .. } => "brew"@,
            },
    {
        match self {
            PackageManager::Cargo => "cargo",
            PackageManager::Homebrew { .. } => "brew",
        }
    }

    /// The command that updates the program.
    pub fn update_command(&self) -> (r: String)
        ensures
            r@ == match self {
                PackageManager::Cargo => "cargo install tickit"@,
                PackageManager::Homebrew { formula } => "brew upgrade "@ + formula@,
            },
    {
        match self {
            PackageManager::Cargo => String::from_str("cargo install tickit"),
            PackageManager::Homebrew { formula } => String::from_str("brew upgrade ").concat(formula.as_str()),
        }
    }
}

} // verus!
