//! XDG `.desktop` application discovery (Desktop Entry Specification):
//! honours `NoDisplay`, `Hidden`, `OnlyShowIn` and `NotShowIn`, strips the
//! field codes of `Exec` after splitting it like a POSIX shell, and keeps one
//! entry per name, preferring a user override over a system entry.

use vstd::prelude::*;
use crate::text::{
    chars_of, drop_empty, eq_ignore_ascii_case, eq_ignore_ascii_case_str, split_fields,
    split_nonempty, split_nonempty_strings, str_equal,
};
use crate::paths::{opt_view, path_join, path_join_spec};
use crate::order::{first_after, insert_stable, stable_sort, lemma_first_after_bounds, law_stable_sort_ordered, strict_order};

verus! {

#[derive(Debug, Clone)]
pub struct AppEntry {
    pub name: String,
    pub comment: Option<String>,
    /// Argv as split by the shell rules, with field codes removed.
    pub argv: Vec<String>,
    pub icon: Option<String>,
    pub categories: Vec<String>,
    pub source_path: String,
}

pub struct AppView {
    pub name: Seq<char>,
    pub comment: Option<Seq<char>>,
    pub argv: Seq<Seq<char>>,
    pub icon: Option<Seq<char>>,
    pub categories: Seq<Seq<char>>,
    pub source_path: Seq<char>,
}

impl View for AppEntry {
    type V = AppView;

    open spec fn view(&self) -> AppView {
        AppView {
            name: self.name@,
            comment: opt_view(self.comment),
            argv: self.argv.deep_view(),
            icon: opt_view(self.icon),
            categories: self.categories.deep_view(),
            source_path: self.source_path@,
        }
    }
}

impl AppEntry {
    pub fn launch_argv(&self) -> (r: &[String])
        ensures
            r@ == self.argv@,
    {
        self.argv.as_slice()
    }
}

// ---------------------------------------------------------------------------
// Exec lines.

/// XDG field codes: `%f %F %u %U %i %c %k %v %m` (a literal `%%` is kept).
pub open spec fn is_field_code_spec(tok: Seq<char>) -> bool {
    &&& tok.len() == 2
    &&& tok[0] == '%'
    &&& (tok[1] == 'f' || tok[1] == 'F' || tok[1] == 'u' || tok[1] == 'U' || tok[1] == 'i'
        || tok[1] == 'c' || tok[1] == 'k' || tok[1] == 'v' || tok[1] == 'm')
}

pub fn is_field_code(tok: &str) -> (r: bool)
    ensures
        r == is_field_code_spec(tok@),
{
    let cs = chars_of(tok);
    if cs.len() != 2 || cs[0] != '%' {
        return false;
    }
    let c = cs[1];
    c == 'f' || c == 'F' || c == 'u' || c == 'U' || c == 'i' || c == 'c' || c == 'k' || c == 'v' || c == 'm'
}

/// `words` without its field codes, order kept.
pub open spec fn drop_field_codes(words: Seq<Seq<char>>) -> Seq<Seq<char>>
    decreases words.len(),
{
    if words.len() == 0 {
        words
    } else if is_field_code_spec(words.last()) {
        drop_field_codes(words.drop_last())
    } else {
        drop_field_codes(words.drop_last()).push(words.last())
    }
}

/// The words of `line` split with POSIX shell rules (quotes, escapes), or
/// `None` when the line cannot be split (for instance an unterminated
/// quote), as `shlex::split` computes them.
pub uninterp spec fn shlex_words(line: Seq<char>) -> Option<Seq<Seq<char>>>;

/// `shlex::split(line)`; its result is named by [`shlex_words`].
#[verifier::external_body]
fn shlex_split(line: &str) -> (r: Option<Vec<String>>)
    ensures
        match r {
            Some(v) => shlex_words(line@) == Some(v.deep_view()),
            None => shlex_words(line@) is None,
        },
{
    shlex::split(line)
}

/// Removes the field codes from split words.
pub fn without_field_codes(words: Vec<String>) -> (r: Vec<String>)
    ensures
        r.deep_view() == drop_field_codes(words.deep_view()),
{
    let ghost w = words.deep_view();
    let mut out: Vec<String> = Vec::new();
    let mut i: usize = 0;
    let n = words.len();
    let mut rest = words;
    proof {
        assert(w.subrange(0, 0) =~= Seq::<Seq<char>>::empty());
    }
    while i < n
        invariant
            n == w.len(),
            i <= n,
            rest@.len() == n - i,
            forall|k: int| 0 <= k < rest@.len() ==> (#[trigger] rest@[k])@ == w[i + k],
            out.deep_view() == drop_field_codes(w.subrange(0, i as int)),
        decreases n - i,
    {
        let tok = rest.remove(0);
        proof {
            assert(tok@ == w[i as int]);
            assert(w.subrange(0, i + 1).drop_last() =~= w.subrange(0, i as int));
        }
        if !is_field_code(tok.as_str()) {
            let ghost before = out.deep_view();
            out.push(tok);
            proof {
                assert(out.deep_view() =~= before.push(w[i as int]));
            }
        }
        i = i + 1;
    }
    proof {
        assert(w.subrange(0, n as int) =~= w);
    }
    out
}

/// The argv an `Exec=` line launches: its shell words without field codes,
/// or nothing when it cannot be split.
pub open spec fn parse_exec_spec(line: Seq<char>) -> Seq<Seq<char>> {
    match shlex_words(line) {
        Some(words) => drop_field_codes(words),
        None => Seq::empty(),
    }
}

/// No field code survives, and every other word keeps its relative order:
/// the result is the split words with exactly the field codes taken out.
pub proof fn law_no_field_codes(words: Seq<Seq<char>>)
    ensures
        forall|k: int| 0 <= k < drop_field_codes(words).len() ==> !is_field_code_spec(#[trigger] drop_field_codes(words)[k]),
        drop_field_codes(words).len() <= words.len(),
        drop_field_codes(words) == words.filter(|w: Seq<char>| !is_field_code_spec(w)),
    decreases words.len(),
{
    reveal(Seq::filter);
    if words.len() > 0 {
        law_no_field_codes(words.drop_last());
        let d = drop_field_codes(words.drop_last());
        assert forall|k: int| 0 <= k < drop_field_codes(words).len() implies !is_field_code_spec(#[trigger] drop_field_codes(words)[k]) by {
            if k < d.len() {
                assert(drop_field_codes(words)[k] == d[k]);
            }
        }
    }
}

/// Splits an `Exec=` value with shell rules and drops XDG field codes.
pub fn parse_exec(line: &str) -> (r: Vec<String>)
    ensures
        r.deep_view() == parse_exec_spec(line@),
{
    match shlex_split(line) {
        Some(words) => without_field_codes(words),
        None => {
            let v: Vec<String> = Vec::new();
            proof {
                assert(v.deep_view() =~= Seq::<Seq<char>>::empty());
            }
            v
        },
    }
}

// ---------------------------------------------------------------------------
// Desktop entries.

/// The keys of the `[Desktop Entry]` group and their unlocalised values in
/// the desktop file `text` found at `path`, or `None` when
/// `freedesktop_desktop_entry` cannot decode the file.
pub uninterp spec fn desktop_entry_group(path: Seq<char>, text: Seq<char>) -> Option<Map<Seq<char>, Seq<char>>>;

pub open spec fn lookup(g: Map<Seq<char>, Seq<char>>, key: Seq<char>) -> Option<Seq<char>> {
    if g.contains_key(key) {
        Some(g[key])
    } else {
        None
    }
}

/// `freedesktop_desktop_entry::DesktopEntry`, held opaque.
#[verifier::external_type_specification]
#[verifier::external_body]
pub struct ExDesktopEntry(freedesktop_desktop_entry::DesktopEntry);

/// The keys of the `[Desktop Entry]` group of a decoded entry and their
/// unlocalised values (empty when the entry has no such group).
pub uninterp spec fn entry_fields(de: freedesktop_desktop_entry::DesktopEntry) -> Map<Seq<char>, Seq<char>>;

/// `DesktopEntry::from_str(path, text, None)`, with the decode error
/// dropped. Whether it decodes, and the `[Desktop Entry]` group it then
/// holds, are named by [`desktop_entry_group`].
#[verifier::external_body]
fn parse_desktop_entry(path: &str, text: &str) -> (r: Option<freedesktop_desktop_entry::DesktopEntry>)
    ensures
        r is Some <==> desktop_entry_group(path@, text@) is Some,
        r matches Some(de) ==> entry_fields(de) == desktop_entry_group(path@, text@).unwrap(),
{
    freedesktop_desktop_entry::DesktopEntry::from_str(path, text, None::<&[&str]>).ok()
}

/// `DesktopEntry::desktop_entry(key)`: the unlocalised value of `key` in the
/// `[Desktop Entry]` group, if the group has that key.
#[verifier::external_body]
fn entry_value(de: &freedesktop_desktop_entry::DesktopEntry, key: &str) -> (r: Option<String>)
    ensures
        opt_view(r) == lookup(entry_fields(*de), key@),
{
    de.desktop_entry(key).map(|v| v.to_string())
}

/// What the launcher reads of a desktop entry: raw values of the keys.
pub struct DesktopInfo {
    pub source_path: String,
    pub name: Option<String>,
    pub exec_line: Option<String>,
    pub comment: Option<String>,
    pub icon: Option<String>,
    pub categories: Option<String>,
    pub only_show_in: Option<String>,
    pub not_show_in: Option<String>,
    pub no_display: bool,
    pub hidden: bool,
}

pub struct DesktopInfoView {
    pub source_path: Seq<char>,
    pub name: Option<Seq<char>>,
    pub exec_line: Option<Seq<char>>,
    pub comment: Option<Seq<char>>,
    pub icon: Option<Seq<char>>,
    pub categories: Option<Seq<char>>,
    pub only_show_in: Option<Seq<char>>,
    pub not_show_in: Option<Seq<char>>,
    pub no_display: bool,
    pub hidden: bool,
}

impl View for DesktopInfo {
    type V = DesktopInfoView;

    open spec fn view(&self) -> DesktopInfoView {
        DesktopInfoView {
            source_path: self.source_path@,
            name: opt_view(self.name),
            exec_line: opt_view(self.exec_line),
            comment: opt_view(self.comment),
            icon: opt_view(self.icon),
            categories: opt_view(self.categories),
            only_show_in: opt_view(self.only_show_in),
            not_show_in: opt_view(self.not_show_in),
            no_display: self.no_display,
            hidden: self.hidden,
        }
    }
}

/// A boolean key is set when its value is `true`.
pub open spec fn key_is_true(v: Option<Seq<char>>) -> bool {
    v == Some("true"@)
}

/// What the launcher reads from a decoded `[Desktop Entry]` group.
pub open spec fn info_from_group(path: Seq<char>, g: Map<Seq<char>, Seq<char>>) -> DesktopInfoView {
    DesktopInfoView {
        source_path: path,
        name: lookup(g, "Name"@),
        exec_line: lookup(g, "Exec"@),
        comment: lookup(g, "Comment"@),
        icon: lookup(g, "Icon"@),
        categories: lookup(g, "Categories"@),
        only_show_in: lookup(g, "OnlyShowIn"@),
        not_show_in: lookup(g, "NotShowIn"@),
        no_display: key_is_true(lookup(g, "NoDisplay"@)),
        hidden: key_is_true(lookup(g, "Hidden"@)),
    }
}

/// Decodes the desktop file `text` found at `path`; `None` when it is not a
/// valid desktop entry.
pub fn decode_desktop_entry(path: &str, text: &str) -> (r: Option<DesktopInfo>)
    ensures
        r is Some <==> desktop_entry_group(path@, text@) is Some,
        r matches Some(info) ==> info@ == info_from_group(path@, desktop_entry_group(path@, text@).unwrap()),
{
    let de = match parse_desktop_entry(path, text) {
        Some(de) => de,
        None => return None,
    };
    let name = entry_value(&de, "Name");
    let exec_line = entry_value(&de, "Exec");
    let comment = entry_value(&de, "Comment");
    let icon = entry_value(&de, "Icon");
    let categories = entry_value(&de, "Categories");
    let only_show_in = entry_value(&de, "OnlyShowIn");
    let not_show_in = entry_value(&de, "NotShowIn");
    let no_display_raw = entry_value(&de, "NoDisplay");
    let hidden_raw = entry_value(&de, "Hidden");
    let no_display = match &no_display_raw {
        Some(s) => str_equal(s.as_str(), "true"),
        None => false,
    };
    let hidden = match &hidden_raw {
        Some(s) => str_equal(s.as_str(), "true"),
        None => false,
    };
    Some(DesktopInfo {
        source_path: String::from_str(path),
        name,
        exec_line,
        comment,
        icon,
        categories,
        only_show_in,
        not_show_in,
        no_display,
        hidden,
    })
}

// ---------------------------------------------------------------------------
// Visibility.

/// Some current desktop equals (ASCII case-insensitively) some listed one.
pub open spec fn any_listed(listed: Seq<Seq<char>>, current: Seq<Seq<char>>) -> bool {
    exists|i: int, j: int|
        0 <= i < listed.len() && 0 <= j < current.len() && eq_ignore_ascii_case(#[trigger] current[j], #[trigger] listed[i])
}

/// Whether an entry is shown under the current desktops: with `OnlyShowIn`
/// one of them must be listed (and there must be a current desktop at all);
/// with `NotShowIn` none of them may be listed.
pub open spec fn visible_spec(only: Option<Seq<char>>, not: Option<Seq<char>>, current: Seq<Seq<char>>) -> bool {
    &&& match only {
        Some(o) => current.len() > 0 && any_listed(split_nonempty(o, ';'), current),
        None => true,
    }
    &&& match not {
        Some(n) => !any_listed(split_nonempty(n, ';'), current),
        None => true,
    }
}

fn any_listed_exec(listed: &Vec<String>, current: &Vec<String>) -> (r: bool)
    ensures
        r == any_listed(listed.deep_view(), current.deep_view()),
{
    let ghost l = listed.deep_view();
    let ghost c = current.deep_view();
    let mut i: usize = 0;
    while i < listed.len()
        invariant
            l == listed.deep_view(),
            c == current.deep_view(),
            i <= listed.len(),
            forall|a: int, b: int| 0 <= a < i && 0 <= b < c.len() ==> !eq_ignore_ascii_case(#[trigger] c[b], #[trigger] l[a]),
        decreases listed.len() - i,
    {
        let mut j: usize = 0;
        while j < current.len()
            invariant
                l == listed.deep_view(),
                c == current.deep_view(),
                i < listed.len(),
                j <= current.len(),
                forall|a: int, b: int| 0 <= a < i && 0 <= b < c.len() ==> !eq_ignore_ascii_case(#[trigger] c[b], #[trigger] l[a]),
                forall|b: int| 0 <= b < j ==> !eq_ignore_ascii_case(#[trigger] c[b], l[i as int]),
            decreases current.len() - j,
        {
            if eq_ignore_ascii_case_str(current[j].as_str(), listed[i].as_str()) {
                proof {
                    assert(eq_ignore_ascii_case(c[j as int], l[i as int]));
                }
                return true;
            }
            j = j + 1;
        }
        i = i + 1;
    }
    false
}

/// Whether an entry with these `OnlyShowIn` / `NotShowIn` values is shown
/// under the current desktops.
pub fn visible_in(only_show_in: &Option<String>, not_show_in: &Option<String>, current: &Vec<String>) -> (r: bool)
    ensures
        r == visible_spec(opt_view(*only_show_in), opt_view(*not_show_in), current.deep_view()),
{
    match only_show_in {
        Some(only) => {
            let allowed = split_nonempty_strings(only.as_str(), ';');
            if current.len() == 0 {
                return false;
            }
            if !any_listed_exec(&allowed, current) {
                return false;
            }
        },
        None => {},
    }
    match not_show_in {
        Some(not) => {
            let denied = split_nonempty_strings(not.as_str(), ';');
            if any_listed_exec(&denied, current) {
                return false;
            }
        },
        None => {},
    }
    true
}

// ---------------------------------------------------------------------------
// Paths.

/// `parts` without the `.` components.
pub open spec fn drop_dots(parts: Seq<Seq<char>>) -> Seq<Seq<char>>
    decreases parts.len(),
{
    if parts.len() == 0 {
        parts
    } else if parts.last() == "."@ {
        drop_dots(parts.drop_last())
    } else {
        drop_dots(parts.drop_last()).push(parts.last())
    }
}

/// The components of a Unix path: a root component for an absolute path,
/// a `.` component only at the very start of a relative path, and the
/// remaining names with repeated separators and `.` normalised away.
pub open spec fn path_components(p: Seq<char>) -> Seq<Seq<char>> {
    let names = drop_empty(split_fields(p, '/'));
    if p.len() > 0 && p[0] == '/' {
        seq!["/"@] + drop_dots(names)
    } else if names.len() > 0 && names[0] == "."@ {
        seq!["."@] + drop_dots(names.drop_first())
    } else {
        drop_dots(names)
    }
}

/// `Path::starts_with`: the components of `base` are a prefix of those of
/// `p`.
pub open spec fn path_starts_with(p: Seq<char>, base: Seq<char>) -> bool {
    let a = path_components(p);
    let b = path_components(base);
    b.len() <= a.len() && a.take(b.len() as int) == b
}

fn without_dots(parts: Vec<String>) -> (r: Vec<String>)
    ensures
        r.deep_view() == drop_dots(parts.deep_view()),
{
    let ghost w = parts.deep_view();
    let n = parts.len();
    let mut rest = parts;
    let mut out: Vec<String> = Vec::new();
    let mut i: usize = 0;
    proof {
        assert(w.subrange(0, 0) =~= Seq::<Seq<char>>::empty());
        reveal_strlit(".");
    }
    while i < n
        invariant
            n == w.len(),
            i <= n,
            rest@.len() == n - i,
            forall|k: int| 0 <= k < rest@.len() ==> (#[trigger] rest@[k])@ == w[i + k],
            out.deep_view() == drop_dots(w.subrange(0, i as int)),
        decreases n - i,
    {
        let part = rest.remove(0);
        proof {
            assert(part@ == w[i as int]);
            assert(w.subrange(0, i + 1).drop_last() =~= w.subrange(0, i as int));
        }
        if !str_equal(part.as_str(), ".") {
            let ghost before = out.deep_view();
            out.push(part);
            proof {
                assert(out.deep_view() =~= before.push(w[i as int]));
            }
        }
        i = i + 1;
    }
    proof {
        assert(w.subrange(0, n as int) =~= w);
    }
    out
}

/// The components of path `p`.
pub fn components_of(p: &str) -> (r: Vec<String>)
    ensures
        r.deep_view() == path_components(p@),
{
    let names = split_nonempty_strings(p, '/');
    let ghost nv = names.deep_view();
    let cs = chars_of(p);
    if cs.len() > 0 && cs[0] == '/' {
        let rest = without_dots(names);
        let mut out: Vec<String> = Vec::new();
        out.push(String::from_str("/"));
        let mut tail = rest;
        let ghost t = tail.deep_view();
        out.append(&mut tail);
        proof {
            reveal_strlit("/");
            assert(out.deep_view() =~= seq!["/"@] + t);
        }
        return out;
    }
    if names.len() > 0 && str_equal(names[0].as_str(), ".") {
        let mut names = names;
        let _first = names.remove(0);
        proof {
            assert(names.deep_view() =~= nv.drop_first());
        }
        let rest = without_dots(names);
        let mut out: Vec<String> = Vec::new();
        out.push(String::from_str("."));
        let mut tail = rest;
        let ghost t = tail.deep_view();
        out.append(&mut tail);
        proof {
            reveal_strlit(".");
            assert(out.deep_view() =~= seq!["."@] + t);
        }
        return out;
    }
    without_dots(names)
}

/// Whether path `p` starts with path `base`, component-wise.
pub fn path_starts_with_exec(p: &str, base: &str) -> (r: bool)
    ensures
        r == path_starts_with(p@, base@),
{
    let a = components_of(p);
    let b = components_of(base);
    let ghost av = a.deep_view();
    let ghost bv = b.deep_view();
    if b.len() > a.len() {
        return false;
    }
    let mut i: usize = 0;
    while i < b.len()
        invariant
            av == a.deep_view(),
            bv == b.deep_view(),
            av == path_components(p@),
            bv == path_components(base@),
            b.len() <= a.len(),
            i <= b.len(),
            forall|k: int| 0 <= k < i ==> av[k] == bv[k],
        decreases b.len() - i,
    {
        if !str_equal(a[i].as_str(), b[i].as_str()) {
            proof {
                assert(av[i as int] == a@[i as int]@);
                assert(bv[i as int] == b@[i as int]@);
                assert(av.take(bv.len() as int)[i as int] == av[i as int]);
                assert(av.take(bv.len() as int) != bv);
            }
            return false;
        }
        proof {
            assert(av[i as int] == a@[i as int]@);
            assert(bv[i as int] == b@[i as int]@);
        }
        i = i + 1;
    }
    proof {
        assert(av.take(bv.len() as int) =~= bv);
    }
    true
}

/// A path is in the home directory when `$HOME` is set and the path starts
/// with it.
pub open spec fn in_home(p: Seq<char>, home: Option<Seq<char>>) -> bool {
    match home {
        Some(h) => path_starts_with(p, h),
        None => false,
    }
}

/// A new entry overrides an old one of the same name when it lies in the
/// home directory and the old one does not (user overrides system).
pub open spec fn more_specific_spec(new_path: Seq<char>, old_path: Seq<char>, home: Option<Seq<char>>) -> bool {
    in_home(new_path, home) && !in_home(old_path, home)
}

pub fn more_specific(new_path: &str, old_path: &str, home: &Option<String>) -> (r: bool)
    ensures
        r == more_specific_spec(new_path@, old_path@, opt_view(*home)),
{
    match home {
        Some(h) => path_starts_with_exec(new_path, h.as_str()) && !path_starts_with_exec(old_path, h.as_str()),
        None => false,
    }
}

// ---------------------------------------------------------------------------
// Collecting the application list.

/// The application an entry yields under the current desktops: none when it
/// is hidden, not displayed, not shown here, has no name or no `Exec`, or
/// its `Exec` yields no argv.
pub open spec fn candidate(info: DesktopInfoView, current: Seq<Seq<char>>) -> Option<AppView> {
    if info.no_display || info.hidden || !visible_spec(info.only_show_in, info.not_show_in, current) {
        None
    } else {
        match (info.name, info.exec_line) {
            (Some(name), Some(line)) => {
                let argv = parse_exec_spec(line);
                if argv.len() == 0 {
                    None
                } else {
                    Some(AppView {
                        name,
                        comment: info.comment,
                        argv,
                        icon: info.icon,
                        categories: match info.categories {
                            Some(c) => split_nonempty(c, ';'),
                            None => Seq::empty(),
                        },
                        source_path: info.source_path,
                    })
                }
            },
            _ => None,
        }
    }
}

/// Index of the application named `name` in `apps`, if any.
pub open spec fn find_name(apps: Seq<AppView>, name: Seq<char>) -> Option<int>
    decreases apps.len(),
{
    if apps.len() == 0 {
        None
    } else {
        match find_name(apps.drop_last(), name) {
            Some(i) => Some(i),
            None => if apps.last().name == name { Some(apps.len() - 1) } else { None },
        }
    }
}

/// Adding one application: a new name is appended; an existing name is
/// replaced only by a more specific entry.
pub open spec fn add_app(apps: Seq<AppView>, a: AppView, home: Option<Seq<char>>) -> Seq<AppView> {
    match find_name(apps, a.name) {
        None => apps.push(a),
        Some(i) => if more_specific_spec(a.source_path, apps[i].source_path, home) {
            apps.update(i, a)
        } else {
            apps
        },
    }
}

/// The applications of the entries, in discovery order, one per name.
pub open spec fn collect_spec(infos: Seq<DesktopInfoView>, current: Seq<Seq<char>>, home: Option<Seq<char>>) -> Seq<AppView>
    decreases infos.len(),
{
    if infos.len() == 0 {
        Seq::empty()
    } else {
        let prev = collect_spec(infos.drop_last(), current, home);
        match candidate(infos.last(), current) {
            Some(a) => add_app(prev, a, home),
            None => prev,
        }
    }
}

/// Unicode lowercase mapping of `s` (`str::to_lowercase`).
pub uninterp spec fn lowercase(s: Seq<char>) -> Seq<char>;

/// `str::to_lowercase`; its result is named by [`lowercase`].
#[verifier::external_body]
fn to_lowercase(s: &str) -> (r: String)
    ensures
        r@ == lowercase(s@),
{
    s.to_lowercase()
}

/// Lexicographic order of character sequences by code point (the order of
/// `str`, whose UTF-8 bytes compare the same way).
pub open spec fn chars_lt(a: Seq<char>, b: Seq<char>) -> bool
    decreases a.len(),
{
    if b.len() == 0 {
        false
    } else if a.len() == 0 {
        true
    } else if a[0] != b[0] {
        (a[0] as u32) < (b[0] as u32)
    } else {
        chars_lt(a.drop_first(), b.drop_first())
    }
}

fn chars_lt_exec(a: &Vec<char>, b: &Vec<char>) -> (r: bool)
    ensures
        r == chars_lt(a@, b@),
{
    let mut i: usize = 0;
    proof {
        assert(a@.skip(0) =~= a@);
        assert(b@.skip(0) =~= b@);
    }
    while i < a.len() && i < b.len() && a[i] == b[i]
        invariant
            i <= a.len(),
            i <= b.len(),
            chars_lt(a@, b@) == chars_lt(a@.skip(i as int), b@.skip(i as int)),
        decreases a.len() - i,
    {
        proof {
            assert(a@.skip(i as int).drop_first() =~= a@.skip(i + 1));
            assert(b@.skip(i as int).drop_first() =~= b@.skip(i + 1));
            assert(a@.skip(i as int)[0] == b@.skip(i as int)[0]);
        }
        i = i + 1;
    }
    proof {
        if i < a.len() && i < b.len() {
            assert(a@.skip(i as int)[0] == a@[i as int]);
            assert(b@.skip(i as int)[0] == b@[i as int]);
        }
    }
    if i >= b.len() {
        return false;
    }
    if i >= a.len() {
        return true;
    }
    (a[i] as u32) < (b[i] as u32)
}

/// Application `y` sorts after application `x` when its lowercased name is
/// greater.
pub open spec fn name_after(apps: Seq<AppView>) -> spec_fn(int, int) -> bool {
    |x: int, y: int| chars_lt(lowercase(apps[x].name), lowercase(apps[y].name))
}

/// The applications sorted by lowercased name; ties keep discovery order.
pub open spec fn sorted_apps(apps: Seq<AppView>) -> Seq<AppView> {
    stable_sort(Seq::new(apps.len(), |i: int| i), name_after(apps)).map_values(|i: int| apps[i])
}

/// The application list: one application per name from the given desktop
/// entries (in discovery order), sorted by lowercased name.
pub open spec fn app_list(infos: Seq<DesktopInfoView>, current_desktop: Seq<char>, home: Option<Seq<char>>) -> Seq<AppView> {
    sorted_apps(collect_spec(infos, split_nonempty(current_desktop, ':'), home))
}

proof fn lemma_find_name_bounds(apps: Seq<AppView>, name: Seq<char>)
    ensures
        find_name(apps, name) matches Some(i) ==> 0 <= i < apps.len() && apps[i].name == name,
        find_name(apps, name) is None ==> forall|k: int| 0 <= k < apps.len() ==> apps[k].name != name,
    decreases apps.len(),
{
    if apps.len() > 0 {
        lemma_find_name_bounds(apps.drop_last(), name);
        if find_name(apps, name) is None {
            assert forall|k: int| 0 <= k < apps.len() implies #[trigger] apps[k].name != name by {
                if k < apps.len() - 1 {
                    assert(apps[k] == apps.drop_last()[k]);
                }
            }
        }
    }
}

fn find_name_exec(apps: &Vec<AppEntry>, name: &str) -> (r: Option<usize>)
    ensures
        match r {
            Some(i) => find_name(apps@.map_values(|a: AppEntry| a@), name@) == Some(i as int),
            None => find_name(apps@.map_values(|a: AppEntry| a@), name@) is None,
        },
{
    let ghost v = apps@.map_values(|a: AppEntry| a@);
    let mut i: usize = 0;
    while i < apps.len()
        invariant
            v == apps@.map_values(|a: AppEntry| a@),
            i <= apps.len(),
            find_name(v.take(i as int), name@) is None,
        decreases apps.len() - i,
    {
        proof {
            assert(v.take(i + 1).drop_last() =~= v.take(i as int));
        }
        if str_equal(apps[i].name.as_str(), name) {
            proof {
                lemma_find_name_prefix(v, name@, i as int + 1);
            }
            return Some(i);
        }
        i = i + 1;
    }
    proof {
        assert(v.take(apps.len() as int) =~= v);
    }
    None
}

/// `find_name` on a prefix that already holds the name agrees with the
/// whole sequence.
proof fn lemma_find_name_prefix(v: Seq<AppView>, name: Seq<char>, n: int)
    requires
        0 < n <= v.len(),
        find_name(v.take(n - 1), name) is None,
        v[n - 1].name == name,
    ensures
        find_name(v, name) == Some(n - 1),
    decreases v.len() - n,
{
    assert(v.take(n).drop_last() =~= v.take(n - 1));
    assert(find_name(v.take(n), name) == Some(n - 1));
    if n < v.len() {
        lemma_find_name_extend(v, name, n);
    } else {
        assert(v.take(n) =~= v);
    }
}

proof fn lemma_find_name_extend(v: Seq<AppView>, name: Seq<char>, n: int)
    requires
        0 < n <= v.len(),
        find_name(v.take(n), name) is Some,
    ensures
        find_name(v, name) == find_name(v.take(n), name),
    decreases v.len() - n,
{
    if n < v.len() {
        assert(v.take(n + 1).drop_last() =~= v.take(n));
        lemma_find_name_extend(v, name, n + 1);
    } else {
        assert(v.take(n) =~= v);
    }
}

/// The application an entry yields (see [`candidate`]).
pub fn entry_app(info: &DesktopInfo, current: &Vec<String>) -> (r: Option<AppEntry>)
    ensures
        match r {
            Some(a) => candidate(info@, current.deep_view()) == Some(a@),
            None => candidate(info@, current.deep_view()) is None,
        },
{
    if info.no_display || info.hidden {
        return None;
    }
    if !visible_in(&info.only_show_in, &info.not_show_in, current) {
        return None;
    }
    let name = match &info.name {
        Some(n) => n.clone(),
        None => return None,
    };
    let line = match &info.exec_line {
        Some(e) => e,
        None => return None,
    };
    let argv = parse_exec(line.as_str());
    if argv.len() == 0 {
        return None;
    }
    let categories = match &info.categories {
        Some(c) => split_nonempty_strings(c.as_str(), ';'),
        None => {
            let v: Vec<String> = Vec::new();
            proof {
                assert(v.deep_view() =~= Seq::<Seq<char>>::empty());
            }
            v
        },
    };
    let comment = match &info.comment {
        Some(c) => Some(c.clone()),
        None => None,
    };
    let icon = match &info.icon {
        Some(c) => Some(c.clone()),
        None => None,
    };
    Some(AppEntry { name, comment, argv, icon, categories, source_path: info.source_path.clone() })
}

/// One application per name from the entries, in discovery order.
pub fn collect_apps(infos: &Vec<DesktopInfo>, current: &Vec<String>, home: &Option<String>) -> (r: Vec<AppEntry>)
    ensures
        r@.map_values(|a: AppEntry| a@) == collect_spec(
            infos@.map_values(|d: DesktopInfo| d@),
            current.deep_view(),
            opt_view(*home),
        ),
{
    let ghost iv = infos@.map_values(|d: DesktopInfo| d@);
    let ghost cur = current.deep_view();
    let ghost hv = opt_view(*home);
    let mut out: Vec<AppEntry> = Vec::new();
    let mut i: usize = 0;
    proof {
        assert(iv.take(0) =~= Seq::<DesktopInfoView>::empty());
        assert(out@.map_values(|a: AppEntry| a@) =~= Seq::<AppView>::empty());
    }
    while i < infos.len()
        invariant
            iv == infos@.map_values(|d: DesktopInfo| d@),
            cur == current.deep_view(),
            hv == opt_view(*home),
            i <= infos.len(),
            out@.map_values(|a: AppEntry| a@) == collect_spec(iv.take(i as int), cur, hv),
        decreases infos.len() - i,
    {
        let ghost prev = out@.map_values(|a: AppEntry| a@);
        proof {
            assert(iv.take(i + 1).drop_last() =~= iv.take(i as int));
            assert(iv.take(i + 1).last() == infos@[i as int]@);
        }
        match entry_app(&infos[i], current) {
            None => {},
            Some(app) => {
                let ghost av = app@;
                match find_name_exec(&out, app.name.as_str()) {
                    None => {
                        out.push(app);
                        proof {
                            assert(out@.map_values(|a: AppEntry| a@) =~= prev.push(av));
                        }
                    },
                    Some(k) => {
                        proof {
                            lemma_find_name_bounds(prev, av.name);
                        }
                        if more_specific(app.source_path.as_str(), out[k].source_path.as_str(), home) {
                            out.set(k, app);
                            proof {
                                assert(out@.map_values(|a: AppEntry| a@) =~= prev.update(k as int, av));
                            }
                        }
                    },
                }
            },
        }
        i = i + 1;
    }
    proof {
        assert(iv.take(infos.len() as int) =~= iv);
    }
    out
}

proof fn lemma_first_after_skip(order: Seq<int>, after: spec_fn(int, int) -> bool, x: int, j: int)
    requires
        0 <= j <= order.len(),
        forall|k: int| 0 <= k < j ==> !after(x, #[trigger] order[k]),
    ensures
        first_after(order, after, x, 0) == first_after(order, after, x, j),
    decreases j,
{
    if j > 0 {
        lemma_first_after_skip(order, after, x, j - 1);
        assert(!after(x, order[j - 1]));
    }
}

/// Whether `key` sorts strictly before the lowercased name of `e`.
fn key_before(key: &Vec<char>, e: &AppEntry) -> (r: bool)
    ensures
        r == chars_lt(key@, lowercase(e.name@)),
{
    let other_lower = to_lowercase(e.name.as_str());
    let other = chars_of(other_lower.as_str());
    chars_lt_exec(key, &other)
}

/// Sorts the applications by lowercased name; ties keep their order.
pub fn sort_apps(apps: Vec<AppEntry>) -> (r: Vec<AppEntry>)
    ensures
        r@.map_values(|a: AppEntry| a@) == sorted_apps(apps@.map_values(|a: AppEntry| a@)),
{
    let ghost av = apps@.map_values(|a: AppEntry| a@);
    let ghost after = name_after(av);
    let n = apps.len();
    let mut src = apps;
    let mut out: Vec<AppEntry> = Vec::new();
    let ghost mut ord: Seq<int> = Seq::empty();
    let mut i: usize = 0;
    proof {
        assert(Seq::new(0, |k: int| k) =~= Seq::<int>::empty());
        assert(out@.map_values(|a: AppEntry| a@) =~= ord.map_values(|k: int| av[k]));
    }
    while i < n
        invariant
            n == av.len(),
            after == name_after(av),
            i <= n,
            src@.len() == n - i,
            forall|m: int| 0 <= m < src@.len() ==> (#[trigger] src@[m])@ == av[i + m],
            ord == stable_sort(Seq::new(i as nat, |k: int| k), after),
            ord.len() == i,
            out@.len() == i,
            out@.map_values(|a: AppEntry| a@) == ord.map_values(|k: int| av[k]),
            forall|k: int| 0 <= k < ord.len() ==> 0 <= #[trigger] ord[k] < i,
        decreases n - i,
    {
        let app = src.remove(0);
        proof {
            assert(app@ == av[i as int]);
        }
        let lower = to_lowercase(app.name.as_str());
        let key = chars_of(lower.as_str());
        let mut j: usize = 0;
        while j < out.len() && !key_before(&key, &out[j])
            invariant
                j <= out@.len(),
                out@.len() == ord.len(),
                out@.map_values(|a: AppEntry| a@) == ord.map_values(|k: int| av[k]),
                forall|k: int| 0 <= k < ord.len() ==> 0 <= #[trigger] ord[k] < i,
                i < n,
                n == av.len(),
                key@ == lowercase(av[i as int].name),
                after == name_after(av),
                forall|k: int| 0 <= k < j ==> !after(i as int, #[trigger] ord[k]),
            decreases out@.len() - j,
        {
            proof {
                assert(out@.map_values(|a: AppEntry| a@)[j as int] == ord.map_values(|k: int| av[k])[j as int]);
                assert(out@[j as int]@ == av[ord[j as int]]);
            }
            j = j + 1;
        }
        proof {
            lemma_first_after_skip(ord, after, i as int, j as int);
            if j < ord.len() {
                assert(out@.map_values(|a: AppEntry| a@)[j as int] == ord.map_values(|k: int| av[k])[j as int]);
                assert(out@[j as int]@ == av[ord[j as int]]);
                assert(after(i as int, ord[j as int]));
            }
            crate::order::lemma_first_after_bounds(ord, after, i as int, j as int);
            assert(first_after(ord, after, i as int, j as int) == j);
        }
        let ghost old_out = out@.map_values(|a: AppEntry| a@);
        let ghost old_vec = out@;
        let ghost app_v = app@;
        out.insert(j, app);
        proof {
            let s = Seq::new((i + 1) as nat, |k: int| k);
            assert(s.drop_last() =~= Seq::new(i as nat, |k: int| k));
            let nord = insert_stable(ord, after, i as int);
            assert(nord =~= ord.take(j as int).push(i as int) + ord.skip(j as int));
            assert forall|k: int| 0 <= k < ord.len() implies (#[trigger] old_out[k]) == av[ord[k]] by {
                assert(old_out[k] == ord.map_values(|k: int| av[k])[k]);
            }
            assert forall|k: int| 0 <= k < nord.len() implies (#[trigger] out@[k])@ == av[nord[k]] by {
                if k < j {
                    assert(out@[k] == old_vec[k]);
                    assert(old_out[k] == old_vec[k]@);
                } else if k == j {
                } else {
                    assert(out@[k] == old_vec[k - 1]);
                    assert(old_out[k - 1] == old_vec[k - 1]@);
                }
            }
            assert(out@.map_values(|a: AppEntry| a@) =~= nord.map_values(|k: int| av[k]));
            ord = nord;
        }
        i = i + 1;
    }
    proof {
        assert(Seq::new(n as nat, |k: int| k) =~= Seq::new(av.len(), |k: int| k));
    }
    out
}

/// The launcher's application list from the decoded desktop entries (in
/// discovery order), the current desktops (`$XDG_CURRENT_DESKTOP`) and the
/// home directory.
pub fn build_app_list(infos: &Vec<DesktopInfo>, current_desktop: &str, home: &Option<String>) -> (r: Vec<AppEntry>)
    ensures
        r@.map_values(|a: AppEntry| a@) == app_list(infos@.map_values(|d: DesktopInfo| d@), current_desktop@, opt_view(*home)),
{
    let current = split_nonempty_strings(current_desktop, ':');
    let apps = collect_apps(infos, &current, home);
    sort_apps(apps)
}

// ---------------------------------------------------------------------------
// Application directories.

/// The `applications` directories under each of `dirs`.
pub open spec fn applications_under(dirs: Seq<Seq<char>>) -> Seq<Seq<char>> {
    dirs.map_values(|d: Seq<char>| path_join_spec(d, "applications"@))
}

/// Where desktop entries are looked for, in order: the user's data
/// directory, each directory of `XDG_DATA_DIRS` (or `/usr/local/share` and
/// `/usr/share` when it is unset), the system Flatpak exports, and the
/// user's Flatpak exports.
pub open spec fn xdg_app_dirs_spec(data_dir: Option<Seq<char>>, xdg_data_dirs: Option<Seq<char>>) -> Seq<Seq<char>> {
    let user: Seq<Seq<char>> = match data_dir {
        Some(d) => seq![path_join_spec(d, "applications"@)],
        None => Seq::empty(),
    };
    let system: Seq<Seq<char>> = match xdg_data_dirs {
        Some(x) => applications_under(crate::text::split_nonempty(x, ':')),
        None => seq!["/usr/local/share/applications"@, "/usr/share/applications"@],
    };
    let user_flatpak: Seq<Seq<char>> = match data_dir {
        Some(d) => seq![path_join_spec(d, "flatpak/exports/share/applications"@)],
        None => Seq::empty(),
    };
    user + system + seq!["/var/lib/flatpak/exports/share/applications"@] + user_flatpak
}

pub fn xdg_app_dirs(data_dir: &Option<String>, xdg_data_dirs: &Option<String>) -> (r: Vec<String>)
    ensures
        r.deep_view() == xdg_app_dirs_spec(opt_view(*data_dir), opt_view(*xdg_data_dirs)),
{
    let mut dirs: Vec<String> = Vec::new();
    let ghost user_spec: Seq<Seq<char>> = match opt_view(*data_dir) {
        Some(d) => seq![path_join_spec(d, "applications"@)],
        None => Seq::empty(),
    };
    match data_dir {
        Some(d) => {
            dirs.push(path_join(d.as_str(), "applications"));
        },
        None => {},
    }
    let ghost user = dirs.deep_view();
    assert(user =~= user_spec);
    match xdg_data_dirs {
        Some(x) => {
            let parts = crate::text::split_nonempty_strings(x.as_str(), ':');
            let mut i: usize = 0;
            while i < parts.len()
                invariant
                    i <= parts@.len(),
                    parts.deep_view() == crate::text::split_nonempty(x@, ':'),
                    dirs.deep_view() == user + applications_under(parts.deep_view().take(i as int)),
                decreases parts@.len() - i,
            {
                let ghost before = dirs.deep_view();
                let joined = path_join(parts[i].as_str(), "applications");
                dirs.push(joined);
                proof {
                    assert(parts.deep_view()[i as int] == parts@[i as int]@);
                    assert(parts.deep_view().take(i + 1) =~= parts.deep_view().take(i as int).push(parts.deep_view()[i as int]));
                    assert(applications_under(parts.deep_view().take(i + 1)) =~= applications_under(parts.deep_view().take(i as int)).push(path_join_spec(parts@[i as int]@, "applications"@)));
                    assert(dirs.deep_view() =~= before.push(path_join_spec(parts@[i as int]@, "applications"@)));
                }
                i = i + 1;
            }
            proof {
                assert(parts.deep_view().take(parts@.len() as int) =~= parts.deep_view());
            }
        },
        None => {
            dirs.push(String::from_str("/usr/local/share/applications"));
            dirs.push(String::from_str("/usr/share/applications"));
            assert(dirs.deep_view() =~= user + seq!["/usr/local/share/applications"@, "/usr/share/applications"@]);
        },
    }
    let ghost system_spec: Seq<Seq<char>> = match opt_view(*xdg_data_dirs) {
        Some(x) => applications_under(crate::text::split_nonempty(x, ':')),
        None => seq!["/usr/local/share/applications"@, "/usr/share/applications"@],
    };
    let ghost mid = dirs.deep_view();
    assert(mid =~= user_spec + system_spec);
    dirs.push(String::from_str("/var/lib/flatpak/exports/share/applications"));
    let ghost mid2 = dirs.deep_view();
    assert(mid2 =~= user_spec + system_spec + seq!["/var/lib/flatpak/exports/share/applications"@]);
    match data_dir {
        Some(d) => {
            dirs.push(path_join(d.as_str(), "flatpak/exports/share/applications"));
            assert(dirs.deep_view() =~= mid2.push(path_join_spec(d@, "flatpak/exports/share/applications"@)));
        },
        None => {},
    }
    proof {
        assert(dirs.deep_view() =~= xdg_app_dirs_spec(opt_view(*data_dir), opt_view(*xdg_data_dirs)));
    }
    dirs
}

// ---------------------------------------------------------------------------
// Laws of the application list.

/// Names are pairwise distinct.
pub open spec fn distinct_names(apps: Seq<AppView>) -> bool {
    forall|i: int, j: int| 0 <= i < j < apps.len() ==> #[trigger] apps[i].name != #[trigger] apps[j].name
}

proof fn lemma_add_app_distinct(apps: Seq<AppView>, a: AppView, home: Option<Seq<char>>)
    requires
        distinct_names(apps),
    ensures
        distinct_names(add_app(apps, a, home)),
{
    lemma_find_name_bounds(apps, a.name);
    let r = add_app(apps, a, home);
    match find_name(apps, a.name) {
        None => {
            assert forall|i: int, j: int| 0 <= i < j < r.len() implies #[trigger] r[i].name != #[trigger] r[j].name by {
                if j == apps.len() {
                    assert(r[i] == apps[i]);
                } else {
                    assert(r[i] == apps[i] && r[j] == apps[j]);
                }
            }
        },
        Some(k) => {
            assert forall|i: int, j: int| 0 <= i < j < r.len() implies #[trigger] r[i].name != #[trigger] r[j].name by {
                assert(r[i].name == apps[i].name);
                assert(r[j].name == apps[j].name);
            }
        },
    }
}

/// The discovered applications have pairwise distinct names: an entry whose
/// name is already listed replaces the listed one or is dropped.
pub proof fn law_one_app_per_name(infos: Seq<DesktopInfoView>, current: Seq<Seq<char>>, home: Option<Seq<char>>)
    ensures
        distinct_names(collect_spec(infos, current, home)),
    decreases infos.len(),
{
    if infos.len() > 0 {
        law_one_app_per_name(infos.drop_last(), current, home);
        match candidate(infos.last(), current) {
            Some(a) => lemma_add_app_distinct(collect_spec(infos.drop_last(), current, home), a, home),
            None => {},
        }
    }
}

proof fn lemma_chars_lt_irreflexive(a: Seq<char>)
    ensures
        !chars_lt(a, a),
    decreases a.len(),
{
    if a.len() > 0 {
        lemma_chars_lt_irreflexive(a.drop_first());
    }
}

proof fn lemma_chars_lt_transitive(a: Seq<char>, b: Seq<char>, c: Seq<char>)
    requires
        chars_lt(a, b),
        chars_lt(b, c),
    ensures
        chars_lt(a, c),
    decreases a.len(),
{
    if a.len() > 0 && b.len() > 0 && c.len() > 0 && a[0] == b[0] && b[0] == c[0] {
        lemma_chars_lt_transitive(a.drop_first(), b.drop_first(), c.drop_first());
    }
}

proof fn lemma_name_after_strict(apps: Seq<AppView>)
    ensures
        strict_order(name_after(apps)),
{
    let after = name_after(apps);
    assert forall|x: int| !#[trigger] after(x, x) by {
        lemma_chars_lt_irreflexive(lowercase(apps[x].name));
    }
    assert forall|x: int, y: int, z: int| #[trigger] after(x, y) && #[trigger] after(y, z) implies after(x, z) by {
        lemma_chars_lt_transitive(lowercase(apps[x].name), lowercase(apps[y].name), lowercase(apps[z].name));
    }
}

/// The application list is sorted by lowercased name: no application comes
/// after one whose lowercased name is greater.
pub proof fn law_app_list_sorted(infos: Seq<DesktopInfoView>, current_desktop: Seq<char>, home: Option<Seq<char>>)
    ensures
        ({
            let l = app_list(infos, current_desktop, home);
            forall|a: int, b: int| 0 <= a < b < l.len() ==> !chars_lt(lowercase(#[trigger] l[b].name), lowercase(#[trigger] l[a].name))
        }),
{
    let apps = collect_spec(infos, split_nonempty(current_desktop, ':'), home);
    let idx = Seq::new(apps.len(), |i: int| i);
    lemma_name_after_strict(apps);
    law_stable_sort_ordered(idx, name_after(apps));
    let s = stable_sort(idx, name_after(apps));
    let l = app_list(infos, current_desktop, home);
    assert(l == s.map_values(|i: int| apps[i]));
    assert forall|a: int, b: int| 0 <= a < b < l.len() implies !chars_lt(lowercase(#[trigger] l[b].name), lowercase(#[trigger] l[a].name)) by {
        assert(l[a] == apps[s[a]]);
        assert(l[b] == apps[s[b]]);
        assert(!name_after(apps)(s[b], s[a]));
    }
}

/// A user entry (under `$HOME`) of an already listed name replaces a system
/// entry of that name; nothing replaces a listed user entry.
pub proof fn law_user_entries_win(apps: Seq<AppView>, a: AppView, home: Option<Seq<char>>)
    requires
        find_name(apps, a.name) is Some,
    ensures
        ({
            let i = find_name(apps, a.name)->0;
            &&& in_home(a.source_path, home) && !in_home(apps[i].source_path, home) ==> add_app(apps, a, home)[i] == a
            &&& in_home(apps[i].source_path, home) ==> add_app(apps, a, home) == apps
            &&& add_app(apps, a, home).len() == apps.len()
        }),
{
    lemma_find_name_bounds(apps, a.name);
}

} // verus!
