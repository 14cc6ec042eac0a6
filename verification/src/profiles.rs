//! Profile names from the AWS command line tool's configuration file.

use vstd::prelude::*;

use crate::cli::{join_path, path_join};
use crate::text::{
    is_ws,
    concat3,
    chars_of, insert_sorted_unique, strictly_sorted, string_from, trim, trim_bounds, views,
};

verus! {

/// Index of the first line feed in `s`, or `s.len()` when there is none.
pub open spec fn first_newline(s: Seq<char>) -> nat
    decreases s.len(),
{
    if s.len() == 0 {
        0
    } else if s[0] == '\n' {
        0
    } else {
        1 + first_newline(s.drop_first())
    }
}

/// A line without the carriage return that ended it.
pub open spec fn strip_cr(line: Seq<char>) -> Seq<char> {
    if line.len() > 0 && line.last() == '\r' {
        line.drop_last()
    } else {
        line
    }
}

/// The lines of a text, as `str::lines` gives them: split at each `\n`,
/// without the `\n` nor a `\r` just before it; a final line feed ends the
/// last line rather than starting an empty one.
pub open spec fn lines(s: Seq<char>) -> Seq<Seq<char>>
    decreases s.len(),
{
    if s.len() == 0 {
        seq![]
    } else {
        let i = first_newline(s);
        if i >= s.len() {
            seq![s]
        } else {
            seq![strip_cr(s.take(i as int))] + lines(s.skip(i as int + 1))
        }
    }
}

/// Whether `p` is a prefix of `s`.
pub open spec fn has_prefix(s: Seq<char>, p: Seq<char>) -> bool {
    p.len() <= s.len() && s.take(p.len() as int) == p
}

/// The profile that a configuration line declares, if any: `[default]`
/// declares `default`, `[profile NAME]` declares `NAME`; surrounding
/// whitespace is ignored, inside and outside the brackets.
pub open spec fn profile_name(line: Seq<char>) -> Option<Seq<char>> {
    let t = trim(line);
    if t.len() >= 2 && t[0] == '[' && t.last() == ']' {
        let section = trim(t.subrange(1, t.len() - 1));
        if section == "default"@ {
            Some("default"@)
        } else if has_prefix(section, "profile "@) {
            let name = trim(section.skip("profile "@.len() as int));
            if name.len() > 0 {
                Some(name)
            } else {
                None
            }
        } else {
            None
        }
    } else {
        None
    }
}

/// The profiles that some line of `ls` declares.
pub open spec fn declared(ls: Seq<Seq<char>>) -> Set<Seq<char>> {
    Set::new(|n: Seq<char>| exists|j: int| 0 <= j < ls.len() && profile_name(ls[j]) == Some(n))
}

/// The profiles that a configuration text declares.
pub open spec fn profiles_of(contents: Seq<char>) -> Set<Seq<char>> {
    declared(lines(contents))
}

proof fn lemma_declared_cons(l: Seq<char>, rest: Seq<Seq<char>>)
    ensures
        declared(seq![l] + rest) == match profile_name(l) {
            Some(n) => declared(rest).insert(n),
            None => declared(rest),
        },
{
    let all = seq![l] + rest;
    let expected = match profile_name(l) {
        Some(n) => declared(rest).insert(n),
        None => declared(rest),
    };
    assert forall|n: Seq<char>| declared(all).contains(n) <==> expected.contains(n) by {
        if declared(all).contains(n) {
            let j = choose|j: int| 0 <= j < all.len() && profile_name(all[j]) == Some(n);
            if j > 0 {
                assert(rest[j - 1] == all[j]);
                assert(declared(rest).contains(n));
            }
        }
        if declared(rest).contains(n) {
            let j = choose|j: int| 0 <= j < rest.len() && profile_name(rest[j]) == Some(n);
            assert(all[j + 1] == rest[j]);
        }
        if profile_name(l) == Some(n) {
            assert(all[0] == l);
        }
    }
    assert(declared(all) =~= expected);
}

proof fn lemma_first_newline(s: Seq<char>, k: int)
    requires
        0 <= k <= s.len(),
        forall|i: int| 0 <= i < k ==> s[i] != '\n',
        k == s.len() || s[k] == '\n',
    ensures
        first_newline(s) == k,
    decreases k,
{
    if k > 0 {
        assert forall|i: int| 0 <= i < k - 1 implies s.drop_first()[i] != '\n' by {
            assert(s.drop_first()[i] == s[i + 1]);
        }
        if k < s.len() {
            assert(s.drop_first()[k - 1] == s[k]);
        }
        lemma_first_newline(s.drop_first(), k - 1);
    }
}

/// Whether `v[a..b]` starts with `p`.
fn range_starts_with(v: &Vec<char>, a: usize, b: usize, p: &Vec<char>) -> (r: bool)
    requires
        a <= b <= v.len(),
    ensures
        r == has_prefix(v@.subrange(a as int, b as int), p@),
{
    if b - a < p.len() {
        return false;
    }
    let mut i: usize = 0;
    while i < p.len()
        invariant
            a <= b <= v.len(),
            p.len() <= b - a,
            i <= p.len(),
            forall|k: int| 0 <= k < i ==> v@[a + k] == p@[k],
        decreases p.len() - i,
    {
        if v[a + i] != p[i] {
            assert(v@.subrange(a as int, b as int).take(p.len() as int)[i as int] != p@[i as int]);
            return false;
        }
        i = i + 1;
    }
    assert(v@.subrange(a as int, b as int).take(p.len() as int) =~= p@);
    true
}

/// Whether `v[a..b]` is exactly `p`.
fn range_equals(v: &Vec<char>, a: usize, b: usize, p: &Vec<char>) -> (r: bool)
    requires
        a <= b <= v.len(),
    ensures
        r == (v@.subrange(a as int, b as int) == p@),
{
    if b - a != p.len() {
        return false;
    }
    let r = range_starts_with(v, a, b, p);
    assert(v@.subrange(a as int, b as int).take(p.len() as int) =~= v@.subrange(
        a as int,
        b as int,
    ));
    r
}

/// The profile that the line `v[a..b]` declares.
fn line_profile(v: &Vec<char>, a: usize, b: usize) -> (r: Option<String>)
    requires
        a <= b <= v.len(),
    ensures
        match r {
            Some(n) => profile_name(v@.subrange(a as int, b as int)) == Some(n@),
            None => profile_name(v@.subrange(a as int, b as int)) is None,
        },
{
    let ghost line = v@.subrange(a as int, b as int);
    let (ta, tb) = trim_bounds(v, a, b);
    let ghost t = v@.subrange(ta as int, tb as int);
    assert(t == trim(line));
    if tb - ta < 2 || v[ta] != '[' || v[tb - 1] != ']' {
        proof {
            if t.len() >= 2 {
                assert(t[0] == v@[ta as int]);
                assert(t.last() == v@[tb - 1]);
            }
        }
        return None;
    }
    assert(t[0] == v@[ta as int]);
    assert(t.last() == v@[tb - 1]);
    assert(t.subrange(1, t.len() - 1) =~= v@.subrange(ta + 1, tb - 1));
    let (sa, sb) = trim_bounds(v, ta + 1, tb - 1);
    let ghost section = v@.subrange(sa as int, sb as int);
    let default_chars = chars_of("default");
    if range_equals(v, sa, sb, &default_chars) {
        return Some(String::from_str("default"));
    }
    let prefix = chars_of("profile ");
    if !range_starts_with(v, sa, sb, &prefix) {
        return None;
    }
    assert(section.skip(prefix@.len() as int) =~= v@.subrange(sa + prefix.len(), sb as int));
    let (na, nb) = trim_bounds(v, sa + prefix.len(), sb);
    if na == nb {
        return None;
    }
    Some(string_from(v, na, nb))
}

/// The profile names that an AWS configuration text declares, sorted and
/// without repetitions. Only `[default]` and `[profile NAME]` section headers
/// count; other sections, malformed headers and all other lines are ignored.
pub fn parse_profiles(contents: &str) -> (r: Vec<String>)
    ensures
        strictly_sorted(views(r@)),
        views(r@).to_set() == profiles_of(contents@),
{
    let v = chars_of(contents);
    let n = v.len();
    let mut result: Vec<String> = Vec::new();
    let mut start: usize = 0;
    assert(v@.skip(0) =~= v@);
    assert(views(result@).to_set() =~= Set::empty());
    while start < n
        invariant
            n == v.len(),
            v@ == contents@,
            start <= n,
            strictly_sorted(views(result@)),
            views(result@).to_set() + declared(lines(v@.skip(start as int))) == profiles_of(
                contents@,
            ),
        decreases n - start,
    {
        let ghost rest = v@.skip(start as int);
        let ghost old_set = views(result@).to_set();
        let mut e = start;
        while e < n && v[e] != '\n'
            invariant
                start <= e <= n == v.len(),
                forall|i: int| start <= i < e ==> v@[i] != '\n',
            decreases n - e,
        {
            e = e + 1;
        }
        proof {
            assert forall|i: int| 0 <= i < e - start implies rest[i] != '\n' by {
                assert(rest[i] == v@[start + i]);
            }
            if e < n {
                assert(rest[e - start] == v@[e as int]);
            }
            lemma_first_newline(rest, e - start);
        }
        let mut line_end = e;
        if e < n && e > start && v[e - 1] == '\r' {
            line_end = e - 1;
        }
        proof {
            let line = rest.take(e - start);
            assert(line =~= v@.subrange(start as int, e as int));
            if e < n {
                assert(strip_cr(line) =~= v@.subrange(start as int, line_end as int));
                assert(rest.skip(e - start + 1) =~= v@.skip(e + 1));
                assert(lines(rest) == seq![strip_cr(line)] + lines(v@.skip(e + 1)));
                lemma_declared_cons(strip_cr(line), lines(v@.skip(e + 1)));
            } else {
                assert(rest =~= v@.subrange(start as int, line_end as int));
                assert(lines(rest) == seq![rest]);
                assert(seq![rest] =~= seq![rest] + Seq::<Seq<char>>::empty());
                lemma_declared_cons(rest, Seq::<Seq<char>>::empty());
                assert(v@.skip(n as int) =~= Seq::<char>::empty());
                assert(lines(v@.skip(n as int)) =~= Seq::<Seq<char>>::empty());
            }
        }
        let found = line_profile(&v, start, line_end);
        match found {
            Some(name) => {
                insert_sorted_unique(&mut result, name);
            },
            None => {},
        }
        if e < n {
            start = e + 1;
        } else {
            start = n;
        }
        proof {
            assert(views(result@).to_set() + declared(lines(v@.skip(start as int))) =~= profiles_of(
                contents@,
            ));
        }
    }
    proof {
        assert(v@.skip(n as int) =~= Seq::<char>::empty());
        assert(lines(v@.skip(n as int)) =~= Seq::<Seq<char>>::empty());
        assert(declared(Seq::<Seq<char>>::empty()) =~= Set::empty());
        assert(views(result@).to_set() =~= views(result@).to_set() + Set::empty());
    }
    result
}


/// Where the configuration file is, given the home directory: `Err` with a
/// message when the home directory is unknown.
pub open spec fn config_path_of(home: Option<Seq<char>>) -> Result<Seq<char>, Seq<char>> {
    match home {
        None => Err("Unable to locate your home directory (HOME is not set)."@),
        Some(h) => Ok(path_join(path_join(h, ".aws"@), "config"@)),
    }
}

/// The location of the AWS configuration file under the home directory
/// `home` (the value of `HOME`, when it is set).
pub fn config_path(home: Option<&str>) -> (r: Result<String, String>)
    ensures
        match r {
            Ok(p) => config_path_of(
                match home {
                    Some(h) => Some(h@),
                    None => None,
                },
            ) == Ok::<Seq<char>, Seq<char>>(p@),
            Err(e) => config_path_of(
                match home {
                    Some(h) => Some(h@),
                    None => None,
                },
            ) == Err::<Seq<char>, Seq<char>>(e@),
        },
{
    match home {
        None => Err(String::from_str("Unable to locate your home directory (HOME is not set).")),
        Some(h) => {
            let dir = join_path(h, ".aws");
            Ok(join_path(dir.as_str(), "config"))
        },
    }
}

/// The profiles declared in the configuration file at `path`, given what
/// reading that file gave: its text, or the text of the read error.
pub fn load_profiles(path: &str, read: Result<String, String>) -> (r: Result<Vec<String>, String>)
    ensures
        match read {
            Ok(contents) => match r {
                Ok(names) => strictly_sorted(views(names@)) && views(names@).to_set()
                    == profiles_of(contents@),
                Err(_) => false,
            },
            Err(error) => match r {
                Ok(_) => false,
                Err(message) => message@ == "Unable to read AWS config at "@ + path@ + ": "@
                    + error@,
            },
        },
{
    match read {
        Ok(contents) => Ok(parse_profiles(contents.as_str())),
        Err(error) => {
            let mut message = concat3("Unable to read AWS config at ", path, ": ");
            message.append(error.as_str());
            Err(message)
        },
    }
}


/// The profile list depends only on which profiles the configuration
/// declares: the order of the sections and their repetitions do not matter.
pub proof fn law_profile_list_depends_only_on_declared_profiles(
    contents1: Seq<char>,
    contents2: Seq<char>,
    list1: Seq<Seq<char>>,
    list2: Seq<Seq<char>>,
)
    requires
        strictly_sorted(list1),
        list1.to_set() == profiles_of(contents1),
        strictly_sorted(list2),
        list2.to_set() == profiles_of(contents2),
        profiles_of(contents1) == profiles_of(contents2),
    ensures
        list1 == list2,
{
    crate::text::lemma_strictly_sorted_unique(list1, list2);
}


proof fn lemma_first_newline_bound(s: Seq<char>)
    ensures
        first_newline(s) <= s.len(),
        first_newline(s) < s.len() ==> s[first_newline(s) as int] == '\n',
    decreases s.len(),
{
    if s.len() > 0 && s[0] != '\n' {
        lemma_first_newline_bound(s.drop_first());
    }
}

proof fn lemma_first_newline_concat(a: Seq<char>, t: Seq<char>)
    ensures
        first_newline(a + t) == if first_newline(a) < a.len() {
            first_newline(a)
        } else {
            a.len() + first_newline(t)
        },
    decreases a.len(),
{
    lemma_first_newline_bound(a);
    if a.len() == 0 {
        assert(a + t =~= t);
    } else {
        assert((a + t)[0] == a[0]);
        if a[0] != '\n' {
            assert((a + t).drop_first() =~= a.drop_first() + t);
            lemma_first_newline_concat(a.drop_first(), t);
        }
    }
}

/// A line and the same line with a carriage return before its line feed
/// declare the same profile.
proof fn lemma_profile_name_strip_cr(line: Seq<char>)
    ensures
        profile_name(strip_cr(line)) == profile_name(line),
{
    if line.len() > 0 && line.last() == '\r' {
        assert(is_ws(line.last()));
        crate::text::lemma_trim_drop_trailing_ws(line);
    }
}

/// The profiles declared by two texts joined with a line feed are those
/// that either text declares: profiles are declared line by line.
pub proof fn law_profiles_of_joined_texts(a: Seq<char>, b: Seq<char>)
    ensures
        profiles_of(a + seq!['\n'] + b) == profiles_of(a) + profiles_of(b),
    decreases a.len(),
{
    let nl = seq!['\n'];
    let s = a + nl + b;
    lemma_first_newline_bound(a);
    lemma_first_newline_concat(a, nl + b);
    assert(s =~= a + (nl + b));
    assert(first_newline(nl + b) == 0) by {
        assert((nl + b)[0] == '\n');
    }
    let i = first_newline(a) as int;
    if i < a.len() {
        let rest = a.skip(i + 1);
        assert(s.take(i) =~= a.take(i));
        assert(s.skip(i + 1) =~= rest + nl + b);
        assert(lines(s) == seq![strip_cr(a.take(i))] + lines(rest + nl + b));
        assert(lines(a) == seq![strip_cr(a.take(i))] + lines(rest));
        law_profiles_of_joined_texts(rest, b);
        lemma_declared_cons(strip_cr(a.take(i)), lines(rest + nl + b));
        lemma_declared_cons(strip_cr(a.take(i)), lines(rest));
        assert(profiles_of(s) =~= profiles_of(a) + profiles_of(b));
    } else {
        assert(s.take(a.len() as int) =~= a);
        assert(s.skip(a.len() as int + 1) =~= b);
        assert(lines(s) == seq![strip_cr(a)] + lines(b));
        lemma_declared_cons(strip_cr(a), lines(b));
        lemma_profile_name_strip_cr(a);
        if a.len() == 0 {
            assert(lines(a) =~= Seq::<Seq<char>>::empty());
            assert(declared(lines(a)) =~= Set::empty());
        } else {
            assert(lines(a) == seq![a]);
            assert(seq![a] =~= seq![a] + Seq::<Seq<char>>::empty());
            lemma_declared_cons(a, Seq::<Seq<char>>::empty());
            assert(declared(Seq::<Seq<char>>::empty()) =~= Set::empty());
        }
        assert(profiles_of(s) =~= profiles_of(a) + profiles_of(b));
    }
}

/// Parsing two texts joined with a line feed gives the sorted union, without
/// repetitions, of the profile lists of the two texts.
pub proof fn law_parse_joined_texts(
    a: Seq<char>,
    b: Seq<char>,
    list_a: Seq<Seq<char>>,
    list_b: Seq<Seq<char>>,
    list: Seq<Seq<char>>,
)
    requires
        strictly_sorted(list_a),
        list_a.to_set() == profiles_of(a),
        strictly_sorted(list_b),
        list_b.to_set() == profiles_of(b),
        strictly_sorted(list),
        list.to_set() == profiles_of(a + seq!['\n'] + b),
    ensures
        list == crate::text::sorted_set(list_a + list_b),
{
    law_profiles_of_joined_texts(a, b);
    crate::text::lemma_sorted_set(list_a + list_b);
    assert((list_a + list_b).to_set() =~= list_a.to_set() + list_b.to_set()) by {
        assert forall|x: Seq<char>| (list_a + list_b).to_set().contains(x) <==> (list_a.to_set()
            + list_b.to_set()).contains(x) by {
            if (list_a + list_b).to_set().contains(x) {
                let k = choose|k: int| 0 <= k < (list_a + list_b).len() && (list_a + list_b)[k]
                    == x;
                if k < list_a.len() {
                    assert(list_a[k] == x);
                } else {
                    assert(list_b[k - list_a.len()] == x);
                }
            }
            if list_a.to_set().contains(x) {
                let k = choose|k: int| 0 <= k < list_a.len() && list_a[k] == x;
                assert((list_a + list_b)[k] == x);
            }
            if list_b.to_set().contains(x) {
                let k = choose|k: int| 0 <= k < list_b.len() && list_b[k] == x;
                assert((list_a + list_b)[list_a.len() + k] == x);
            }
        }
    }
    crate::text::lemma_strictly_sorted_unique(list, crate::text::sorted_set(list_a + list_b));
}


proof fn lemma_trim_keeps(s: Seq<char>)
    requires
        s.len() > 0,
        !is_ws(s[0]),
        !is_ws(s.last()),
    ensures
        trim(s) == s,
{
}

/// A `[profile NAME]` header declares `NAME`, and `[default]` declares
/// `default`, for any name without surrounding whitespace.
pub proof fn law_profile_headers_declare_their_name(name: Seq<char>)
    requires
        name.len() > 0,
        !is_ws(name[0]),
        !is_ws(name.last()),
    ensures
        profile_name(seq!['['] + "profile "@ + name + seq![']']) == Some(name),
        profile_name(seq!['['] + "default"@ + seq![']']) == Some("default"@),
{
    reveal_strlit("profile ");
    reveal_strlit("default");
    let p = "profile "@;
    let line = seq!['['] + p + name + seq![']'];
    lemma_trim_keeps(line);
    let section = line.subrange(1, line.len() - 1);
    assert(section =~= p + name);
    lemma_trim_keeps(section);
    assert(section.take(p.len() as int) =~= p);
    assert(section.skip(p.len() as int) =~= name);
    lemma_trim_keeps(name);
    assert(section.len() != "default"@.len());
    let d = seq!['['] + "default"@ + seq![']'];
    lemma_trim_keeps(d);
    let ds = d.subrange(1, d.len() - 1);
    assert(ds =~= "default"@);
    lemma_trim_keeps(ds);
}

/// The configuration file is `.aws/config` under the home directory.
pub proof fn law_config_file_is_under_home(home: Seq<char>)
    requires
        home.len() > 0,
        home.last() != '/',
    ensures
        config_path_of(Some(home)) == Ok::<Seq<char>, Seq<char>>(home + "/.aws/config"@),
        config_path_of(None) is Err,
{
    reveal_strlit("/");
    reveal_strlit(".aws");
    reveal_strlit("config");
    reveal_strlit("/.aws/config");
    let dir = home + "/"@ + ".aws"@;
    assert(dir.last() == 's');
    assert(dir + "/"@ + "config"@ =~= home + "/.aws/config"@);
}

} // verus!
