//! Release-version parsing and comparison for the self-update check.

use vstd::prelude::*;
use vstd::string::StringExecFns;
use crate::text::{chars_of, is_white_space, lossy_text, utf8_lossy, spec_trim, trim, trim_end_index, trim_start_index};
use crate::tray::decimal;

verus! {

broadcast use vstd::string::group_string_axioms;

/// An ASCII decimal digit.
pub open spec fn is_digit(c: char) -> bool {
    '0' <= c && c <= '9'
}

/// The value of a decimal digit character.
pub open spec fn digit_value(c: char) -> nat {
    (c as int - '0' as int) as nat
}

/// The value of a string of decimal digits (0 for the empty string).
pub open spec fn digits_value(s: Seq<char>) -> nat
    decreases s.len(),
{
    if s.len() == 0 {
        0
    } else {
        digits_value(s.drop_last()) * 10 + digit_value(s.last())
    }
}

/// Every character of `s` is a decimal digit.
pub open spec fn all_digits(s: Seq<char>) -> bool {
    forall|i: int| 0 <= i < s.len() ==> is_digit(#[trigger] s[i])
}

/// What `u64::from_str` accepts: an optional `+`, then one or more decimal
/// digits whose value fits in a `u64`.
pub open spec fn spec_parse_u64(s: Seq<char>) -> Option<u64> {
    let d = if s.len() > 0 && s[0] == '+' {
        s.drop_first()
    } else {
        s
    };
    if d.len() > 0 && all_digits(d) && digits_value(d) <= u64::MAX {
        Some(digits_value(d) as u64)
    } else {
        None
    }
}

/// A leading-`v` character of a version tag.
pub open spec fn is_v(c: char) -> bool {
    c == 'v' || c == 'V'
}

/// The end of the run of `v`/`V` characters that starts at `i`.
pub open spec fn end_of_v_run(t: Seq<char>, i: int) -> int
    decreases t.len() - i,
{
    if 0 <= i < t.len() && is_v(t[i]) {
        end_of_v_run(t, i + 1)
    } else {
        i
    }
}

/// The end of the run of decimal digits that starts at `i`.
pub open spec fn end_of_digits(t: Seq<char>, i: int) -> int
    decreases t.len() - i,
{
    if 0 <= i < t.len() && is_digit(t[i]) {
        end_of_digits(t, i + 1)
    } else {
        i
    }
}

/// The position of the first `.` at or after `i`, or the length when none.
pub open spec fn find_dot(t: Seq<char>, i: int) -> int
    decreases t.len() - i,
{
    if 0 <= i < t.len() && t[i] != '.' {
        find_dot(t, i + 1)
    } else {
        i
    }
}

/// The version text of a tag: trimmed, without its leading `v`/`V` characters.
pub open spec fn version_chars(s: Seq<char>) -> Seq<char> {
    let t = spec_trim(s);
    t.subrange(end_of_v_run(t, 0), t.len() as int)
}

/// `major.minor.patch...`: the first two `.`-separated fields are numbers, the
/// third starts with the digits of the patch number; anything after it is
/// ignored.
pub open spec fn parse_version_chars(u: Seq<char>) -> Option<(u64, u64, u64)> {
    let d1 = find_dot(u, 0);
    let d2 = find_dot(u, d1 + 1);
    let d3 = find_dot(u, d2 + 1);
    if d1 < u.len() && d2 < u.len() {
        let third = u.subrange(d2 + 1, d3);
        match (
            spec_parse_u64(u.subrange(0, d1)),
            spec_parse_u64(u.subrange(d1 + 1, d2)),
            spec_parse_u64(third.take(end_of_digits(third, 0))),
        ) {
            (Some(major), Some(minor), Some(patch)) => Some((major, minor, patch)),
            _ => None,
        }
    } else {
        None
    }
}

/// The version that a tag such as `v1.2.3` names.
pub open spec fn spec_parse_version(s: Seq<char>) -> Option<(u64, u64, u64)> {
    parse_version_chars(version_chars(s))
}

/// Lexicographic order of `(major, minor, patch)`.
pub open spec fn version_lt(a: (u64, u64, u64), b: (u64, u64, u64)) -> bool {
    a.0 < b.0 || (a.0 == b.0 && (a.1 < b.1 || (a.1 == b.1 && a.2 < b.2)))
}

/// `latest` names a strictly greater version than `current`; an unparsable
/// tag on either side never counts as newer.
pub open spec fn spec_is_newer(current: Seq<char>, latest: Seq<char>) -> bool {
    match (spec_parse_version(current), spec_parse_version(latest)) {
        (Some(cur), Some(lat)) => version_lt(cur, lat),
        _ => false,
    }
}

proof fn lemma_digits_value_prefix(s: Seq<char>, i: int)
    requires
        0 <= i <= s.len(),
    ensures
        digits_value(s.take(i)) <= digits_value(s),
    decreases s.len() - i,
{
    if i < s.len() {
        lemma_digits_value_prefix(s, i + 1);
        assert(s.take(i + 1).drop_last() =~= s.take(i));
    } else {
        assert(s.take(i) =~= s);
    }
}

/// The characters of `v` from `from` up to `to`.
fn sub_chars(v: &[char], from: usize, to: usize) -> (r: Vec<char>)
    requires
        from <= to <= v.len(),
    ensures
        r@ == v@.subrange(from as int, to as int),
{
    let mut r: Vec<char> = Vec::new();
    let mut i = from;
    while i < to
        invariant
            from <= i <= to <= v.len(),
            r@ == v@.subrange(from as int, i as int),
        decreases to - i,
    {
        r.push(v[i]);
        i = i + 1;
        assert(r@ =~= v@.subrange(from as int, i as int));
    }
    r
}

fn v_run_end(t: &[char], from: usize) -> (r: usize)
    requires
        from <= t.len(),
    ensures
        r == end_of_v_run(t@, from as int),
        from <= r <= t.len(),
{
    let mut i = from;
    while i < t.len() && (t[i] == 'v' || t[i] == 'V')
        invariant
            from <= i <= t.len(),
            end_of_v_run(t@, i as int) == end_of_v_run(t@, from as int),
        decreases t.len() - i,
    {
        i = i + 1;
    }
    i
}

fn digits_end(t: &[char], from: usize) -> (r: usize)
    requires
        from <= t.len(),
    ensures
        r == end_of_digits(t@, from as int),
        from <= r <= t.len(),
{
    let mut i = from;
    while i < t.len() && ('0' <= t[i] && t[i] <= '9')
        invariant
            from <= i <= t.len(),
            end_of_digits(t@, i as int) == end_of_digits(t@, from as int),
        decreases t.len() - i,
    {
        i = i + 1;
    }
    i
}

fn dot_position(t: &[char], from: usize) -> (r: usize)
    requires
        from <= t.len(),
    ensures
        r == find_dot(t@, from as int),
        from <= r <= t.len(),
{
    let mut i = from;
    while i < t.len() && t[i] != '.'
        invariant
            from <= i <= t.len(),
            find_dot(t@, i as int) == find_dot(t@, from as int),
        decreases t.len() - i,
    {
        i = i + 1;
    }
    i
}

/// The value of a decimal digit character.
fn digit_of(c: char) -> (d: u64)
    requires
        is_digit(c),
    ensures
        d == digit_value(c),
        d <= 9,
{
    (c as u32 - '0' as u32) as u64
}

/// Parses `s` the way `u64::from_str` does.
fn parse_u64_chars(s: &[char]) -> (r: Option<u64>)
    ensures
        r == spec_parse_u64(s@),
{
    let start: usize = if s.len() > 0 && s[0] == '+' {
        1
    } else {
        0
    };
    let ghost d = s@.subrange(start as int, s@.len() as int);
    assert(d =~= (if s@.len() > 0 && s@[0] == '+' {
        s@.drop_first()
    } else {
        s@
    }));
    if start == s.len() {
        return None;
    }
    let mut value: u64 = 0;
    let mut i = start;
    while i < s.len()
        invariant
            start <= i <= s.len(),
            d == s@.subrange(start as int, s@.len() as int),
            d == (if s@.len() > 0 && s@[0] == '+' {
                s@.drop_first()
            } else {
                s@
            }),
            d.len() > 0,
            value == digits_value(d.take(i - start)),
            all_digits(d.take(i - start)),
        decreases s.len() - i,
    {
        let c = s[i];
        if !('0' <= c && c <= '9') {
            assert(!is_digit(d[i - start]));
            return None;
        }
        let digit = digit_of(c);
        assert(d.take(i - start + 1).drop_last() =~= d.take(i - start));
        if value > (u64::MAX - digit) / 10 {
            assert(value * 10 + digit > u64::MAX) by (nonlinear_arith)
                requires
                    value > (u64::MAX - digit) / 10,
                    digit <= 9,
            ;
            proof {
                lemma_digits_value_prefix(d, i - start + 1);
                assert(digits_value(d.take(i - start + 1)) == value * 10 + digit);
            }
            return None;
        }
        assert(value * 10 + digit <= u64::MAX) by (nonlinear_arith)
            requires
                value <= (u64::MAX - digit) / 10,
                digit <= 9,
        ;
        value = value * 10 + digit;
        i = i + 1;
        assert(all_digits(d.take(i - start))) by {
            assert forall|k: int| 0 <= k < i - start implies is_digit(#[trigger] d.take(i - start)[k]) by {
                if k < i - start - 1 {
                    assert(d.take(i - start)[k] == d.take(i - start - 1)[k]);
                }
            }
        }
    }
    assert(d.take(i - start) =~= d);
    Some(value)
}

/// Parses a release tag such as `v1.2.3` or `1.2.3-beta` into
/// `(major, minor, patch)`.
pub fn parse_version(s: &str) -> (r: Option<(u64, u64, u64)>)
    ensures
        r == spec_parse_version(s@),
{
    let t = chars_of(trim(s).as_str());
    let start = v_run_end(&t, 0);
    let u = sub_chars(&t, start, t.len());
    let d1 = dot_position(&u, 0);
    let major = match parse_u64_chars(&sub_chars(&u, 0, d1)) {
        Some(v) => v,
        None => return None,
    };
    if d1 == u.len() {
        return None;
    }
    let d2 = dot_position(&u, d1 + 1);
    let minor = match parse_u64_chars(&sub_chars(&u, d1 + 1, d2)) {
        Some(v) => v,
        None => return None,
    };
    if d2 == u.len() {
        return None;
    }
    let d3 = dot_position(&u, d2 + 1);
    let third = sub_chars(&u, d2 + 1, d3);
    let digits = digits_end(&third, 0);
    let patch = match parse_u64_chars(&sub_chars(&third, 0, digits)) {
        Some(v) => v,
        None => return None,
    };
    assert(third@.subrange(0, digits as int) =~= third@.take(digits as int));
    Some((major, minor, patch))
}

/// Whether the tag `latest` names a strictly newer version than `current`.
pub fn is_newer_version(current: &str, latest: &str) -> (newer: bool)
    ensures
        newer == spec_is_newer(current@, latest@),
{
    match (parse_version(current), parse_version(latest)) {
        (Some(cur), Some(lat)) => {
            cur.0 < lat.0 || (cur.0 == lat.0 && (cur.1 < lat.1 || (cur.1 == lat.1 && cur.2
                < lat.2)))
        },
        _ => false,
    }
}

/// The tag to update to: the trimmed text that the release query printed
/// (its output bytes read as UTF-8), when it is not empty and names a newer
/// version than `current_version`.
pub fn newer_release_tag(current_version: &str, query_output: &[u8]) -> (tag: Option<String>)
    ensures
        tag is Some <==> (spec_trim(lossy_text(query_output@)).len() > 0 && spec_is_newer(
            current_version@,
            spec_trim(lossy_text(query_output@)),
        )),
        tag matches Some(t) ==> t@ == spec_trim(lossy_text(query_output@)),
{
    let text = utf8_lossy(query_output);
    let latest_tag = trim(text.as_str());
    if !latest_tag.as_str().is_empty() && is_newer_version(current_version, latest_tag.as_str()) {
        Some(latest_tag)
    } else {
        None
    }
}

/// No version is newer than itself.
pub proof fn lemma_not_newer_than_itself(v: Seq<char>)
    ensures
        !spec_is_newer(v, v),
{
}

/// If `b` is newer than `a`, then `a` is not newer than `b`.
pub proof fn lemma_newer_asymmetric(a: Seq<char>, b: Seq<char>)
    ensures
        spec_is_newer(a, b) ==> !spec_is_newer(b, a),
{
}

/// Newer-than is transitive.
pub proof fn lemma_newer_transitive(a: Seq<char>, b: Seq<char>, c: Seq<char>)
    ensures
        spec_is_newer(a, b) && spec_is_newer(b, c) ==> spec_is_newer(a, c),
{
}

/// An unparsable tag on either side is never reported as newer.
pub proof fn lemma_unparsable_never_newer(a: Seq<char>, b: Seq<char>)
    ensures
        spec_parse_version(a) is None || spec_parse_version(b) is None ==> !spec_is_newer(a, b),
{
}

/// Where the running executable is moved while an update is applied.
pub fn backup_exe_path(current_exe: &str) -> (p: String)
    ensures
        p@ == current_exe@ + ".old"@,
{
    let mut p = current_exe.to_owned();
    p.append(".old");
    p
}

/// Where a downloaded update is stored before it replaces the executable.
pub fn download_exe_path(current_exe: &str) -> (p: String)
    ensures
        p@ == current_exe@ + ".new"@,
{
    let mut p = current_exe.to_owned();
    p.append(".new");
    p
}

proof fn lemma_decimal_digits(n: nat)
    ensures
        decimal(n).len() > 0,
        all_digits(decimal(n)),
        digits_value(decimal(n)) == n,
    decreases n,
{
    let d = decimal(n);
    if n < 10 {
        assert(d.drop_last() =~= Seq::<char>::empty());
        assert(digits_value(d) == digits_value(d.drop_last()) * 10 + digit_value(d.last()));
        assert(digit_value(crate::tray::digit_char(n)) == n);
    } else {
        lemma_decimal_digits(n / 10);
        assert(d.drop_last() =~= decimal(n / 10));
        assert(d.last() == crate::tray::digit_char(n % 10));
        assert((n / 10) * 10 + n % 10 == n) by (nonlinear_arith);
        assert(digit_value(crate::tray::digit_char(n % 10)) == n % 10);
        assert(digits_value(d) == digits_value(d.drop_last()) * 10 + digit_value(d.last()));
        assert forall|i: int| 0 <= i < d.len() implies is_digit(#[trigger] d[i]) by {
            if i < d.len() - 1 {
                assert(d[i] == decimal(n / 10)[i]);
            }
        }
    }
}

proof fn lemma_parse_decimal(n: u64)
    ensures
        spec_parse_u64(decimal(n as nat)) == Some(n),
{
    lemma_decimal_digits(n as nat);
    assert(is_digit(decimal(n as nat)[0]));
}

proof fn lemma_find_dot_at(t: Seq<char>, i: int, d: int)
    requires
        0 <= i <= d <= t.len(),
        forall|j: int| i <= j < d ==> t[j] != '.',
        d == t.len() || t[d] == '.',
    ensures
        find_dot(t, i) == d,
    decreases d - i,
{
    if i < d {
        lemma_find_dot_at(t, i + 1, d);
    }
}

proof fn lemma_end_of_digits_all(t: Seq<char>, i: int)
    requires
        0 <= i <= t.len(),
        all_digits(t),
    ensures
        end_of_digits(t, i) == t.len(),
    decreases t.len() - i,
{
    if i < t.len() {
        lemma_end_of_digits_all(t, i + 1);
    }
}

proof fn lemma_trim_unchanged(u: Seq<char>)
    requires
        u.len() > 0,
        !is_white_space(u[0]),
        !is_white_space(u[u.len() - 1]),
    ensures
        spec_trim(u) == u,
{
    assert(trim_start_index(u, 0) == 0);
    assert(trim_end_index(u, 0, u.len() as int) == u.len());
    assert(spec_trim(u) =~= u);
}

/// Three decimal numbers joined by dots parse as a version.
proof fn lemma_fields_of_formatted(a: u64, b: u64, c: u64)
    ensures
        parse_version_chars(
            decimal(a as nat) + seq!['.'] + decimal(b as nat) + seq!['.'] + decimal(c as nat),
        ) == Some((a, b, c)),
{
    let da = decimal(a as nat);
    let db = decimal(b as nat);
    let dc = decimal(c as nat);
    lemma_decimal_digits(a as nat);
    lemma_decimal_digits(b as nat);
    lemma_decimal_digits(c as nat);
    lemma_parse_decimal(a);
    lemma_parse_decimal(b);
    lemma_parse_decimal(c);
    let w = da + seq!['.'] + db + seq!['.'] + dc;
    let d1 = da.len() as int;
    let d2 = d1 + 1 + db.len();
    assert(w[d1] == '.');
    assert(w[d2] == '.');
    assert forall|j: int| 0 <= j < d1 implies w[j] != '.' by {
        assert(w[j] == da[j]);
        assert(is_digit(da[j]));
    }
    assert forall|j: int| d1 + 1 <= j < d2 implies w[j] != '.' by {
        assert(w[j] == db[j - d1 - 1]);
        assert(is_digit(db[j - d1 - 1]));
    }
    assert forall|j: int| d2 + 1 <= j < w.len() implies w[j] != '.' by {
        assert(w[j] == dc[j - d2 - 1]);
        assert(is_digit(dc[j - d2 - 1]));
    }
    lemma_find_dot_at(w, 0, d1);
    lemma_find_dot_at(w, d1 + 1, d2);
    lemma_find_dot_at(w, d2 + 1, w.len() as int);
    assert(w.subrange(0, d1) =~= da);
    assert(w.subrange(d1 + 1, d2) =~= db);
    let third = w.subrange(d2 + 1, w.len() as int);
    assert(third =~= dc);
    lemma_end_of_digits_all(dc, 0);
    assert(third.take(end_of_digits(third, 0)) =~= dc);
}

/// A tag written as `major.minor.patch` in decimal, with or without a leading
/// `v` or `V`, parses back to the same three numbers.
pub proof fn lemma_parse_version_of_formatted(pfx: Seq<char>, a: u64, b: u64, c: u64)
    requires
        pfx == Seq::<char>::empty() || pfx == seq!['v'] || pfx == seq!['V'],
    ensures
        spec_parse_version(
            pfx + decimal(a as nat) + seq!['.'] + decimal(b as nat) + seq!['.'] + decimal(c as nat),
        ) == Some((a, b, c)),
{
    let da = decimal(a as nat);
    let dc = decimal(c as nat);
    lemma_decimal_digits(a as nat);
    lemma_decimal_digits(c as nat);
    let w = da + seq!['.'] + decimal(b as nat) + seq!['.'] + dc;
    let u = pfx + w;
    assert(u =~= pfx + da + seq!['.'] + decimal(b as nat) + seq!['.'] + dc);
    assert(is_digit(da[0]));
    assert(w[0] == da[0]);
    assert(u[pfx.len() as int] == da[0]);
    assert(u[u.len() - 1] == dc[dc.len() - 1]);
    assert(is_digit(dc[dc.len() - 1]));
    lemma_trim_unchanged(u);
    reveal_with_fuel(end_of_v_run, 3);
    assert(end_of_v_run(u, 0) == pfx.len());
    assert(version_chars(u) =~= w);
    lemma_fields_of_formatted(a, b, c);
}

/// What has happened so far while an update replaces the executable.
pub enum UpdateEvent {
    /// The update starts; a backup from an earlier update may still exist.
    Begin { backup_exists: bool },
    /// Moving the running executable to its backup name succeeded or failed.
    MovedAside { ok: bool },
    /// Moving the download into place succeeded or failed.
    Installed { ok: bool },
}

/// The next file operation of an update.
pub enum UpdateAction {
    /// Move the running executable to its backup name, first removing a
    /// stale backup when there is one.
    MoveCurrentAside { remove_stale_backup: bool },
    /// Give up with the error of the last operation.
    Fail,
    /// Move the download to the executable's name.
    InstallNew,
    /// Move the backup back to the executable's name, then fail.
    RestoreAndFail,
    /// Remove the backup; the update is done.
    RemoveBackupAndSucceed,
}

/// The order of an update's file operations: nothing is lost when a step
/// fails, since a failed install puts the old executable back.
pub open spec fn spec_update_step(event: UpdateEvent) -> UpdateAction {
    match event {
        UpdateEvent::Begin { backup_exists } => UpdateAction::MoveCurrentAside {
            remove_stale_backup: backup_exists,
        },
        UpdateEvent::MovedAside { ok } => if ok {
            UpdateAction::InstallNew
        } else {
            UpdateAction::Fail
        },
        UpdateEvent::Installed { ok } => if ok {
            UpdateAction::RemoveBackupAndSucceed
        } else {
            UpdateAction::RestoreAndFail
        },
    }
}

/// The next file operation of an update after `event`.
pub fn update_step(event: UpdateEvent) -> (action: UpdateAction)
    ensures
        action == spec_update_step(event),
{
    match event {
        UpdateEvent::Begin { backup_exists } => UpdateAction::MoveCurrentAside {
            remove_stale_backup: backup_exists,
        },
        UpdateEvent::MovedAside { ok } => if ok {
            UpdateAction::InstallNew
        } else {
            UpdateAction::Fail
        },
        UpdateEvent::Installed { ok } => if ok {
            UpdateAction::RemoveBackupAndSucceed
        } else {
            UpdateAction::RestoreAndFail
        },
    }
}

/// Newer-than orders releases by major, then minor, then patch number: for
/// two tags that parse, a greater major number is newer, a smaller one is not;
/// with equal majors the minor numbers decide the same way, and with equal
/// majors and minors the patch numbers do.
pub proof fn lemma_newer_is_lexicographic(current: Seq<char>, latest: Seq<char>, cur: (u64, u64, u64), lat: (u64, u64, u64))
    requires
        spec_parse_version(current) == Some(cur),
        spec_parse_version(latest) == Some(lat),
    ensures
        cur.0 < lat.0 ==> spec_is_newer(current, latest),
        cur.0 > lat.0 ==> !spec_is_newer(current, latest),
        cur.0 == lat.0 && cur.1 < lat.1 ==> spec_is_newer(current, latest),
        cur.0 == lat.0 && cur.1 > lat.1 ==> !spec_is_newer(current, latest),
        cur.0 == lat.0 && cur.1 == lat.1 ==> (spec_is_newer(current, latest) <==> cur.2 < lat.2),
{
}

} // verus!
