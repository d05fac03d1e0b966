use vstd::prelude::*;
use vstd::string::*;
use crate::migrator::MigratorError;

verus! {

// ---------------------------------------------------------------------------
// Script file names
//
// A migration unit with number N is stored as the three files
// `N.up.sql`, `N.down.sql` and `N.chk.sql` in the migration root.
// ---------------------------------------------------------------------------

/// Whether a character is a decimal digit
pub open spec fn is_digit_char(c: char) -> bool {
    48 <= c as u32 <= 57
}

/// The value of a decimal digit character
pub open spec fn digit_of(c: char) -> int {
    c as u32 - 48
}

/// Whether every character of a sequence is a decimal digit
pub open spec fn spec_all_digits(s: Seq<char>) -> bool {
    forall|i: int| 0 <= i < s.len() ==> is_digit_char(#[trigger] s[i])
}

/// The number written by a sequence of decimal digits, most significant first
pub open spec fn spec_digits_val(s: Seq<char>) -> int
    decreases s.len(),
{
    if s.len() == 0 {
        0
    } else {
        spec_digits_val(s.drop_last()) * 10 + digit_of(s.last())
    }
}

/// Ten to the power `n`
pub open spec fn pow10(n: nat) -> int
    decreases n,
{
    if n == 0 {
        1
    } else {
        10 * pow10((n - 1) as nat)
    }
}

proof fn lemma_pow10_pos(n: nat)
    ensures
        pow10(n) >= 1,
    decreases n,
{
    if n > 0 {
        lemma_pow10_pos((n - 1) as nat);
    }
}

proof fn lemma_pow10_mono(a: nat, b: nat)
    requires
        a <= b,
    ensures
        pow10(a) <= pow10(b),
    decreases b,
{
    if a < b {
        lemma_pow10_mono(a, (b - 1) as nat);
        lemma_pow10_pos((b - 1) as nat);
    }
}

proof fn lemma_digits_val_bound(s: Seq<char>)
    requires
        spec_all_digits(s),
    ensures
        0 <= spec_digits_val(s) < pow10(s.len()),
    decreases s.len(),
{
    if s.len() > 0 {
        assert(spec_all_digits(s.drop_last()));
        lemma_digits_val_bound(s.drop_last());
    }
}

proof fn lemma_parse_bound(name: Seq<char>, suffix: Seq<char>)
    ensures
        match spec_parse_unit(name, suffix) {
            Some(v) => 0 <= v < 1000000000000000000,
            None => true,
        },
{
    if spec_parse_unit(name, suffix) is Some {
        let s = name.take(name.len() - suffix.len());
        lemma_digits_val_bound(s);
        lemma_pow10_mono(s.len(), 18);
        assert(pow10(18) == 1000000000000000000) by {
            reveal_with_fuel(pow10, 19);
        }
    }
}

/// A unit number written with no more than eighteen digits and no
/// leading zero names a unit; other digit strings do not.
pub open spec fn spec_canonical_digits(s: Seq<char>) -> bool {
    &&& 1 <= s.len() <= 18
    &&& spec_all_digits(s)
    &&& (s[0] != '0' || s.len() == 1)
}

/// The unit number a file name carries for the given suffix: the name must be
/// a canonical digit string followed by exactly that suffix.
pub open spec fn spec_parse_unit(name: Seq<char>, suffix: Seq<char>) -> Option<int> {
    if name.len() > suffix.len() && name.skip(name.len() - suffix.len()) == suffix
        && spec_canonical_digits(name.take(name.len() - suffix.len())) {
        Some(spec_digits_val(name.take(name.len() - suffix.len())))
    } else {
        None
    }
}

/// Whatever unit number a name carries for this suffix is at most `m`
pub open spec fn spec_unit_bounded(name: Seq<char>, suffix: Seq<char>, m: int) -> bool {
    match spec_parse_unit(name, suffix) {
        Some(v) => v <= m,
        None => true,
    }
}

/// Reads the unit number out of a file name, for the given suffix
#[verifier::loop_isolation(false)]
pub fn parse_unit_number(name: &str, suffix: &str) -> (r: Option<i64>)
    ensures
        match r {
            Some(v) => spec_parse_unit(name@, suffix@) == Some(v as int),
            None => spec_parse_unit(name@, suffix@) is None,
        },
{
    let nlen = name.unicode_len();
    let slen = suffix.unicode_len();
    if nlen <= slen {
        return None;
    }
    let plen = nlen - slen;
    if plen > 18 {
        return None;
    }
    let tail = name.substring_char(plen, nlen).to_owned();
    let sfx = suffix.to_owned();
    if !(tail == sfx) {
        return None;
    }
    let c0 = name.get_char(0);
    if c0 == '0' && plen != 1 {
        proof {
            assert(name@.take(plen as int)[0] == name@[0]);
            assert(!spec_canonical_digits(name@.take(plen as int)));
        }
        return None;
    }
    let ghost prefix = name@.take(plen as int);
    let mut v: i64 = 0;
    let mut i: usize = 0;
    while i < plen
        invariant
            0 <= i <= plen,
            plen <= 18,
            plen <= name@.len(),
            spec_all_digits(prefix.take(i as int)),
            v == spec_digits_val(prefix.take(i as int)),
            0 <= v < pow10(i as nat),
            prefix == name@.take(plen as int),
        decreases plen - i,
    {
        let c = name.get_char(i);
        let u = c as u32;
        if u < 48 || u > 57 {
            proof {
                assert(prefix[i as int] == name@[i as int]);
                assert(!is_digit_char(prefix[i as int]));
                assert(!spec_all_digits(prefix));
                assert(!spec_canonical_digits(prefix));
                assert(prefix == name@.take(name@.len() - suffix@.len()));
                assert(spec_parse_unit(name@, suffix@) is None);
            }
            return None;
        }
        proof {
            assert(prefix.take(i + 1).drop_last() =~= prefix.take(i as int));
            assert(prefix.take(i + 1).last() == name@[i as int]);
            lemma_pow10_mono((i + 1) as nat, 18);
            assert(pow10(18) == 1000000000000000000) by {
                reveal_with_fuel(pow10, 19);
            }
        }
        v = v * 10 + ((u - 48) as i64);
        i = i + 1;
    }
    proof {
        assert(prefix.take(plen as int) =~= prefix);
        assert(name@.skip(plen as int) =~= tail@);
        assert(prefix[0] == name@[0]);
    }
    Some(v)
}

// ---------------------------------------------------------------------------
// The files of a migration root
// ---------------------------------------------------------------------------

/// A file found in the migration root: its name and its contents
#[derive(Debug)]
pub struct ScriptFile {
    /// The bare file name, without any directory part
    pub name: String,
    /// What the file holds
    pub contents: String,
}

impl ScriptFile {
    pub fn new(name: String, contents: String) -> (r: ScriptFile)
        ensures
            r.name == name,
            r.contents == contents,
    {
        ScriptFile { name, contents }
    }
}

/// The first position at or after `k` of a file carrying unit `n` for this
/// suffix, if there is one
pub open spec fn spec_find_from(
    files: Seq<ScriptFile>,
    n: int,
    suffix: Seq<char>,
    k: int,
) -> Option<int>
    decreases files.len() - k,
{
    if k < 0 || k >= files.len() {
        None
    } else if spec_parse_unit(files[k].name@, suffix) == Some(n) {
        Some(k)
    } else {
        spec_find_from(files, n, suffix, k + 1)
    }
}

/// The first position of a file carrying unit `n` for this suffix
pub open spec fn spec_find_script(files: Seq<ScriptFile>, n: int, suffix: Seq<char>) -> Option<
    int,
> {
    spec_find_from(files, n, suffix, 0)
}

proof fn lemma_find_from_none(files: Seq<ScriptFile>, n: int, suffix: Seq<char>, m: int, k: int)
    requires
        forall|i: int|
            0 <= i < files.len() ==> spec_unit_bounded(#[trigger] files[i].name@, suffix, m),
        n > m,
    ensures
        spec_find_from(files, n, suffix, k) is None,
    decreases files.len() - k,
{
    if 0 <= k < files.len() {
        lemma_find_from_none(files, n, suffix, m, k + 1);
    }
}

/// Finds the first file carrying unit `n` for this suffix
#[verifier::loop_isolation(false)]
pub fn find_script(files: &Vec<ScriptFile>, n: i64, suffix: &str) -> (r: Option<usize>)
    ensures
        match r {
            Some(k) => k < files@.len() && spec_find_script(files@, n as int, suffix@) == Some(
                k as int,
            ) && spec_parse_unit(files@[k as int].name@, suffix@) == Some(n as int),
            None => spec_find_script(files@, n as int, suffix@) is None,
        },
{
    let mut k: usize = 0;
    while k < files.len()
        invariant
            0 <= k <= files@.len(),
            spec_find_script(files@, n as int, suffix@) == spec_find_from(
                files@,
                n as int,
                suffix@,
                k as int,
            ),
        decreases files@.len() - k,
    {
        match parse_unit_number(files[k].name.as_str(), suffix) {
            Some(v) => {
                if v == n {
                    return Some(k);
                }
            },
            None => {},
        }
        k = k + 1;
    }
    None
}

// ---------------------------------------------------------------------------
// Discovery
// ---------------------------------------------------------------------------

/// Whether a file for unit `n` with this suffix exists
pub open spec fn spec_has_script(files: Seq<ScriptFile>, n: int, suffix: Seq<char>) -> bool {
    spec_find_script(files, n, suffix) is Some
}

/// All three scripts of unit `n` exist
pub open spec fn spec_complete_at(files: Seq<ScriptFile>, n: int) -> bool {
    &&& spec_has_script(files, n, ".up.sql"@)
    &&& spec_has_script(files, n, ".down.sql"@)
    &&& spec_has_script(files, n, ".chk.sql"@)
}

/// No script of unit `n` exists
pub open spec fn spec_none_at(files: Seq<ScriptFile>, n: int) -> bool {
    &&& !spec_has_script(files, n, ".up.sql"@)
    &&& !spec_has_script(files, n, ".down.sql"@)
    &&& !spec_has_script(files, n, ".chk.sql"@)
}

/// Some but not all scripts of unit `n` exist: a hard discovery failure
pub open spec fn spec_partial_at(files: Seq<ScriptFile>, n: int) -> bool {
    !spec_complete_at(files, n) && !spec_none_at(files, n)
}

/// The contents of unit `n`'s script with this suffix
pub open spec fn spec_script_at(files: Seq<ScriptFile>, n: int, suffix: Seq<char>) -> Seq<char> {
    files[spec_find_script(files, n, suffix).unwrap()].contents@
}

/// The name unit `n` goes by: its up script's file name with the suffix cut off
pub open spec fn spec_stem_at(files: Seq<ScriptFile>, n: int) -> Seq<char> {
    let name = files[spec_find_script(files, n, ".up.sql"@).unwrap()].name@;
    name.take(name.len() - ".up.sql"@.len())
}

// ---------------------------------------------------------------------------
// Migration units
// ---------------------------------------------------------------------------

/// A database migration containing upward, downward, and check scripts
#[derive(Debug)]
pub struct Migration {
    /// A number denoting the ordering of the migration
    pub number: i64,
    /// The name the unit goes by, used by stop limits
    pub file_name: String,
    /// An upward migration script
    pub up: String,
    /// A downward migration script
    pub down: String,
    /// A check migration script
    pub check: String,
}

impl Migration {
    /// Creates a new migration
    pub fn new(number: i64, file_name: String, up: String, down: String, check: String) -> (r:
        Migration)
        ensures
            r.number == number,
            r.file_name == file_name,
            r.up == up,
            r.down == down,
            r.check == check,
    {
        Migration { number, file_name, up, down, check }
    }
}

impl Clone for Migration {
    fn clone(&self) -> (r: Migration)
        ensures
            r == *self,
    {
        let r = Migration {
            number: self.number,
            file_name: self.file_name.clone(),
            up: self.up.clone(),
            down: self.down.clone(),
            check: self.check.clone(),
        };
        proof {
            assert(r == *self);
        }
        r
    }
}

/// `m` is exactly what discovery owes for unit `n` of these files
pub open spec fn spec_unit_ok(files: Seq<ScriptFile>, m: Migration, n: int) -> bool {
    &&& m.number == n
    &&& spec_complete_at(files, n)
    &&& m.up@ == spec_script_at(files, n, ".up.sql"@)
    &&& m.down@ == spec_script_at(files, n, ".down.sql"@)
    &&& m.check@ == spec_script_at(files, n, ".chk.sql"@)
    &&& m.file_name@ == spec_stem_at(files, n)
}

/// Finds the largest unit number any file in the root carries
#[verifier::loop_isolation(false)]
fn max_unit_number(files: &Vec<ScriptFile>) -> (m: i64)
    ensures
        0 <= m < 1000000000000000000,
        forall|i: int|
            0 <= i < files@.len() ==> spec_unit_bounded(#[trigger] files@[i].name@, ".up.sql"@, m as int)
                && spec_unit_bounded(files@[i].name@, ".down.sql"@, m as int)
                && spec_unit_bounded(files@[i].name@, ".chk.sql"@, m as int),
{
    let mut m: i64 = 0;
    let mut k: usize = 0;
    while k < files.len()
        invariant
            0 <= k <= files@.len(),
            0 <= m < 1000000000000000000,
            forall|i: int|
                0 <= i < k ==> spec_unit_bounded(#[trigger] files@[i].name@, ".up.sql"@, m as int)
                    && spec_unit_bounded(files@[i].name@, ".down.sql"@, m as int)
                    && spec_unit_bounded(files@[i].name@, ".chk.sql"@, m as int),
        decreases files@.len() - k,
    {
        let name = &files[k].name;
        proof {
            lemma_parse_bound(name@, ".up.sql"@);
            lemma_parse_bound(name@, ".down.sql"@);
            lemma_parse_bound(name@, ".chk.sql"@);
        }
        match parse_unit_number(name.as_str(), ".up.sql") {
            Some(v) => if v > m {
                m = v;
            },
            None => {},
        }
        match parse_unit_number(name.as_str(), ".down.sql") {
            Some(v) => if v > m {
                m = v;
            },
            None => {},
        }
        match parse_unit_number(name.as_str(), ".chk.sql") {
            Some(v) => if v > m {
                m = v;
            },
            None => {},
        }
        k = k + 1;
    }
    m
}

impl Migration {
    /// Retrieves all migrations held by the given files, in ascending order.
    ///
    /// Unit numbers are probed from 1 upward. The probe stops, successfully,
    /// at the first number with no script at all; a number with some but not
    /// all of its three scripts fails discovery naming that number, and no
    /// partial set is ever returned.
    #[verifier::loop_isolation(false)]
    pub fn get_all(files: &Vec<ScriptFile>) -> (r: Result<Vec<Migration>, MigratorError>)
        ensures
            match r {
                Ok(migs) => {
                    &&& forall|j: int|
                        0 <= j < migs@.len() ==> spec_unit_ok(files@, #[trigger] migs@[j], j + 1)
                    &&& spec_none_at(files@, migs@.len() as int + 1)
                },
                Err(e) => {
                    &&& e matches MigratorError::Discovery(n, _)
                    &&& e matches MigratorError::Discovery(n, _) ==> 1 <= n
                        && spec_partial_at(files@, n as int) && (forall|m: int|
                        1 <= m < n ==> spec_complete_at(files@, m))
                },
            },
    {
        let maxn = max_unit_number(files);
        let mut migs: Vec<Migration> = Vec::new();
        let mut n: i64 = 1;
        while n <= maxn
            invariant
                1 <= n,
                n <= maxn + 1,
                0 <= maxn < 1000000000000000000,
                migs@.len() == n - 1,
                forall|j: int|
                    0 <= j < migs@.len() ==> spec_unit_ok(files@, #[trigger] migs@[j], j + 1),
                forall|m: int| 1 <= m < n ==> spec_complete_at(files@, m),
                forall|i: int|
                    0 <= i < files@.len() ==> spec_unit_bounded(
                        #[trigger] files@[i].name@,
                        ".up.sql"@,
                        maxn as int,
                    ) && spec_unit_bounded(files@[i].name@, ".down.sql"@, maxn as int)
                        && spec_unit_bounded(files@[i].name@, ".chk.sql"@, maxn as int),
            decreases maxn + 1 - n,
        {
            let up_i = find_script(files, n, ".up.sql");
            let down_i = find_script(files, n, ".down.sql");
            let chk_i = find_script(files, n, ".chk.sql");
            match (up_i, down_i, chk_i) {
                (Some(u), Some(d), Some(c)) => {
                    let up_file = &files[u];
                    let name_len = up_file.name.as_str().unicode_len();
                    proof {
                        reveal_strlit(".up.sql");
                        assert(spec_parse_unit(up_file.name@, ".up.sql"@) is Some);
                    }
                    let stem = up_file.name.as_str().substring_char(0, name_len - 7).to_owned();
                    let m = Migration::new(
                        n,
                        stem,
                        files[u].contents.clone(),
                        files[d].contents.clone(),
                        files[c].contents.clone(),
                    );
                    migs.push(m);
                    n = n + 1;
                },
                (None, None, None) => {
                    return Ok(migs);
                },
                _ => {
                    return Err(
                        MigratorError::Discovery(
                            n,
                            String::from_str("incomplete script set for this migration"),
                        ),
                    );
                },
            }
        }
        proof {
            lemma_find_from_none(files@, n as int, ".up.sql"@, maxn as int, 0);
            lemma_find_from_none(files@, n as int, ".down.sql"@, maxn as int, 0);
            lemma_find_from_none(files@, n as int, ".chk.sql"@, maxn as int, 0);
        }
        Ok(migs)
    }
}

} // verus!
