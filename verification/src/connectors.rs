//! App connectors: display labels, URL slugs, and merging the connector
//! directory with the connectors a user can actually reach.
use vstd::prelude::*;
use crate::text::{
    chars_eq, chars_lt, chars_of, extend_chars, lemma_seq_lt_asymmetric, lemma_seq_lt_irreflexive,
    lemma_seq_lt_total, lemma_seq_lt_transitive, seq_lt, slice_range, string_from_chars, trim,
    trim_chars,
};

verus! {

/// An app connector as listed to the user.
#[derive(Debug, Clone, PartialEq, Eq)]
pub struct AppInfo {
    pub id: String,
    pub name: String,
    pub description: Option<String>,
    pub logo_url: Option<String>,
    pub logo_url_dark: Option<String>,
    pub distribution_channel: Option<String>,
    pub install_url: Option<String>,
    pub is_accessible: bool,
}

pub open spec fn opt_view(o: Option<String>) -> Option<Seq<char>> {
    match o {
        Some(s) => Some(s@),
        None => None,
    }
}

/// A connector as plain sequences.
pub struct AppView {
    pub id: Seq<char>,
    pub name: Seq<char>,
    pub description: Option<Seq<char>>,
    pub logo_url: Option<Seq<char>>,
    pub logo_url_dark: Option<Seq<char>>,
    pub distribution_channel: Option<Seq<char>>,
    pub install_url: Option<Seq<char>>,
    pub is_accessible: bool,
}

impl View for AppInfo {
    type V = AppView;

    open spec fn view(&self) -> AppView {
        AppView {
            id: self.id@,
            name: self.name@,
            description: opt_view(self.description),
            logo_url: opt_view(self.logo_url),
            logo_url_dark: opt_view(self.logo_url_dark),
            distribution_channel: opt_view(self.distribution_channel),
            install_url: opt_view(self.install_url),
            is_accessible: self.is_accessible,
        }
    }
}

pub open spec fn apps_view(v: Seq<AppInfo>) -> Seq<AppView> {
    v.map_values(|a: AppInfo| a@)
}

fn clone_string(s: &String) -> (r: String)
    ensures
        r@ == s@,
{
    s.clone()
}

fn clone_opt(o: &Option<String>) -> (r: Option<String>)
    ensures
        opt_view(r) == opt_view(*o),
{
    match o {
        Some(s) => Some(clone_string(s)),
        None => None,
    }
}

fn clone_app(a: &AppInfo) -> (r: AppInfo)
    ensures
        r@ == a@,
{
    AppInfo {
        id: clone_string(&a.id),
        name: clone_string(&a.name),
        description: clone_opt(&a.description),
        logo_url: clone_opt(&a.logo_url),
        logo_url_dark: clone_opt(&a.logo_url_dark),
        distribution_channel: clone_opt(&a.distribution_channel),
        install_url: clone_opt(&a.install_url),
        is_accessible: a.is_accessible,
    }
}

// ---------------------------------------------------------------------------
// Slugs and URLs
// ---------------------------------------------------------------------------

pub open spec fn is_ascii_alphanumeric(c: char) -> bool {
    ('0' <= c <= '9') || ('a' <= c <= 'z') || ('A' <= c <= 'Z')
}

pub open spec fn ascii_lower(c: char) -> char {
    if 'A' <= c <= 'Z' {
        (((c as u8) + 32) as u8) as char
    } else {
        c
    }
}

/// ASCII letters and digits kept (letters lower-cased), everything else `-`.
pub open spec fn slug_char(c: char) -> char {
    if is_ascii_alphanumeric(c) {
        ascii_lower(c)
    } else {
        '-'
    }
}

/// Index of the first character at or after `i` that is not `-`.
pub open spec fn dash_lead(s: Seq<char>, i: int) -> int
    decreases s.len() - i,
{
    if i < 0 || i >= s.len() || s[i] != '-' {
        i
    } else {
        dash_lead(s, i + 1)
    }
}

/// Index just past the last character before `j` (and at or after `lo`)
/// that is not `-`.
pub open spec fn dash_trail(s: Seq<char>, lo: int, j: int) -> int
    decreases j - lo,
{
    if j <= lo || s[j - 1] != '-' {
        j
    } else {
        dash_trail(s, lo, j - 1)
    }
}

/// `s` without leading and trailing `-` (`str::trim_matches('-')`).
pub open spec fn trim_dashes(s: Seq<char>) -> Seq<char> {
    let lo = dash_lead(s, 0);
    s.subrange(lo, dash_trail(s, lo, s.len() as int))
}

pub open spec fn app_word() -> Seq<char> {
    seq!['a', 'p', 'p']
}

/// The URL slug of a connector name: letters and digits lower-cased, other
/// characters turned into `-`, outer dashes trimmed, `app` if nothing is
/// left.
pub open spec fn name_slug(name: Seq<char>) -> Seq<char> {
    let t = trim_dashes(Seq::new(name.len(), |i: int| slug_char(name[i])));
    if t.len() == 0 {
        app_word()
    } else {
        t
    }
}

pub open spec fn apps_url_prefix() -> Seq<char> {
    seq!['h', 't', 't', 'p', 's', ':', '/', '/', 'c', 'h', 'a', 't', 'g', 'p', 't', '.', 'c', 'o', 'm', '/', 'a', 'p', 'p', 's', '/']
}

/// `https://chatgpt.com/apps/<slug>/<id>`
pub open spec fn install_url(name: Seq<char>, id: Seq<char>) -> Seq<char> {
    apps_url_prefix() + name_slug(name) + seq!['/'] + id
}

fn slug_char_exec(c: char) -> (r: char)
    ensures
        r == slug_char(c),
{
    if ('0' <= c && c <= '9') || ('a' <= c && c <= 'z') {
        c
    } else if 'A' <= c && c <= 'Z' {
        let b = (c as u8) + 32;
        b as char
    } else {
        '-'
    }
}

/// The URL slug of a connector name (`name_slug`).
pub fn connector_name_slug(name: &str) -> (r: String)
    ensures
        r@ == name_slug(name@),
{
    let cs = chars_of(name);
    let mut raw: Vec<char> = Vec::new();
    let mut i: usize = 0;
    while i < cs.len()
        invariant
            i <= cs.len(),
            cs@ == name@,
            raw@ =~= Seq::new(i as nat, |k: int| slug_char(name@[k])),
        decreases cs.len() - i,
    {
        raw.push(slug_char_exec(cs[i]));
        i += 1;
    }
    let ghost full = Seq::new(name@.len(), |k: int| slug_char(name@[k]));
    assert(raw@ =~= full);
    let mut lo: usize = 0;
    while lo < raw.len() && raw[lo] == '-'
        invariant
            lo <= raw.len(),
            dash_lead(raw@, 0) == dash_lead(raw@, lo as int),
        decreases raw.len() - lo,
    {
        lo += 1;
    }
    let mut hi: usize = raw.len();
    while hi > lo && raw[hi - 1] == '-'
        invariant
            lo <= hi <= raw.len(),
            dash_trail(raw@, lo as int, raw.len() as int) == dash_trail(raw@, lo as int, hi as int),
        decreases hi,
    {
        hi -= 1;
    }
    if hi == lo {
        let a = vec!['a', 'p', 'p'];
        assert(a@ =~= app_word());
        string_from_chars(&a)
    } else {
        let t = slice_range(&raw, lo, hi);
        string_from_chars(&t)
    }
}

/// The install URL of a connector (`install_url`).
pub fn connector_install_url(name: &str, connector_id: &str) -> (r: String)
    ensures
        r@ == install_url(name@, connector_id@),
{
    let mut v = vec!['h', 't', 't', 'p', 's', ':', '/', '/', 'c', 'h', 'a', 't', 'g', 'p', 't', '.', 'c', 'o', 'm', '/', 'a', 'p', 'p', 's', '/'];
    assert(v@ =~= apps_url_prefix());
    let slug = connector_name_slug(name);
    let sc = chars_of(slug.as_str());
    extend_chars(&mut v, &sc);
    v.push('/');
    let ic = chars_of(connector_id);
    extend_chars(&mut v, &ic);
    string_from_chars(&v)
}

/// A connector's label is its name; the id plays no part.
fn format_connector_label(name: &str, _id: &str) -> (r: String)
    ensures
        r@ == name@,
{
    let c = chars_of(name);
    string_from_chars(&c)
}

/// The label shown for a connector: its name.
pub fn connector_display_label(connector: &AppInfo) -> (r: String)
    ensures
        r@ == connector.name@,
{
    format_connector_label(connector.name.as_str(), connector.id.as_str())
}

/// The slug used to mention a connector: the slug of its label.
pub fn connector_mention_slug(connector: &AppInfo) -> (r: String)
    ensures
        r@ == name_slug(connector.name@),
{
    let label = connector_display_label(connector);
    connector_name_slug(label.as_str())
}

/// A trimmed, non-empty value, or `None`.
pub open spec fn normalized_value(value: Option<Seq<char>>) -> Option<Seq<char>> {
    match value {
        Some(v) => if trim(v).len() > 0 {
            Some(trim(v))
        } else {
            None
        },
        None => None,
    }
}

/// Trims a connector value and drops it when nothing is left.
pub fn normalize_connector_value(value: Option<&str>) -> (r: Option<String>)
    ensures
        opt_view(r) == normalized_value(match value {
            Some(v) => Some(v@),
            None => None,
        }),
{
    match value {
        Some(v) => {
            let c = chars_of(v);
            let t = trim_chars(&c);
            if t.len() > 0 {
                Some(string_from_chars(&t))
            } else {
                None
            }
        },
        None => None,
    }
}

// ---------------------------------------------------------------------------
// Ordering
// ---------------------------------------------------------------------------

/// Listing order: accessible connectors first, then by name, then by id.
pub open spec fn app_lt(a: AppView, b: AppView) -> bool {
    ||| (a.is_accessible && !b.is_accessible)
    ||| (a.is_accessible == b.is_accessible && (seq_lt(a.name, b.name) || (a.name == b.name
        && seq_lt(a.id, b.id))))
}

pub open spec fn sorted_strict(s: Seq<AppView>) -> bool {
    forall|i: int, j: int| 0 <= i < j < s.len() ==> app_lt(#[trigger] s[i], #[trigger] s[j])
}

pub open spec fn ids_distinct(s: Seq<AppView>) -> bool {
    forall|i: int, j: int| 0 <= i < j < s.len() ==> (#[trigger] s[i]).id != (#[trigger] s[j]).id
}

/// `out` lists exactly the connectors of `src`, in listing order.
pub open spec fn sorted_listing(out: Seq<AppView>, src: Seq<AppView>) -> bool {
    &&& sorted_strict(out)
    &&& out.len() == src.len()
    &&& forall|i: int| 0 <= i < src.len() ==> out.contains(#[trigger] src[i])
    &&& forall|i: int| 0 <= i < out.len() ==> src.contains(#[trigger] out[i])
}

proof fn lemma_app_lt_order(a: AppView, b: AppView, c: AppView)
    ensures
        !app_lt(a, a),
        app_lt(a, b) ==> !app_lt(b, a),
        app_lt(a, b) && app_lt(b, c) ==> app_lt(a, c),
        a.id != b.id ==> app_lt(a, b) || app_lt(b, a),
{
    lemma_seq_lt_irreflexive(a.name);
    lemma_seq_lt_irreflexive(a.id);
    lemma_seq_lt_asymmetric(a.name, b.name);
    lemma_seq_lt_asymmetric(a.id, b.id);
    lemma_seq_lt_transitive(a.name, b.name, c.name);
    lemma_seq_lt_transitive(a.id, b.id, c.id);
    lemma_seq_lt_total(a.name, b.name);
    lemma_seq_lt_total(a.id, b.id);
}

/// Whether `a` comes before `b` in listing order.
fn app_lt_exec(a: &AppInfo, b: &AppInfo) -> (r: bool)
    ensures
        r == app_lt(a@, b@),
{
    if a.is_accessible != b.is_accessible {
        return a.is_accessible;
    }
    let an = chars_of(a.name.as_str());
    let bn = chars_of(b.name.as_str());
    if chars_lt(&an, &bn) {
        return true;
    }
    if !chars_eq(&an, &bn) {
        return false;
    }
    let ai = chars_of(a.id.as_str());
    let bi = chars_of(b.id.as_str());
    chars_lt(&ai, &bi)
}

/// Sorts connectors with distinct ids into listing order.
fn sort_apps(v: &Vec<AppInfo>) -> (out: Vec<AppInfo>)
    requires
        ids_distinct(apps_view(v@)),
    ensures
        sorted_listing(apps_view(out@), apps_view(v@)),
{
    let ghost src = apps_view(v@);
    let mut out: Vec<AppInfo> = Vec::new();
    let mut i: usize = 0;
    while i < v.len()
        invariant
            i <= v.len(),
            src == apps_view(v@),
            ids_distinct(src),
            sorted_listing(apps_view(out@), src.take(i as int)),
        decreases v.len() - i,
    {
        let x = clone_app(&v[i]);
        let ghost xv = x@;
        let ghost ov = apps_view(out@);
        let mut j: usize = 0;
        while j < out.len() && !app_lt_exec(&x, &out[j])
            invariant
                j <= out.len(),
                x@ == xv,
                ov == apps_view(out@),
                forall|k: int| 0 <= k < j ==> !app_lt(xv, #[trigger] ov[k]),
            decreases out.len() - j,
        {
            j += 1;
        }
        proof {
            assert(xv == src[i as int]);
            // every listed connector comes from the first `i`, so its id differs
            assert forall|k: int| 0 <= k < ov.len() implies (#[trigger] ov[k]).id != xv.id by {
                assert(src.take(i as int).contains(ov[k]));
                let m = choose|m: int| 0 <= m < i && src.take(i as int)[m] == ov[k];
                assert(src[m] == ov[k]);
            }
            assert forall|k: int| 0 <= k < j implies app_lt(#[trigger] ov[k], xv) by {
                lemma_app_lt_order(ov[k], xv, xv);
            }
            assert forall|k: int| j <= k < ov.len() implies app_lt(xv, #[trigger] ov[k]) by {
                if k > j {
                    lemma_app_lt_order(xv, ov[j as int], ov[k]);
                }
            }
        }
        out.insert(j, x);
        proof {
            let nv = apps_view(out@);
            assert(nv =~= ov.insert(j as int, xv));
            assert forall|a: int, b: int| 0 <= a < b < nv.len() implies app_lt(#[trigger] nv[a], #[trigger] nv[b]) by {
                if a < j && b < j {
                } else if a < j && b == j {
                } else if a < j {
                    lemma_app_lt_order(nv[a], xv, nv[b]);
                } else if a == j {
                } else {
                }
            }
            let st = src.take(i + 1);
            assert(st =~= src.take(i as int).push(xv));
            assert forall|m: int| 0 <= m < st.len() implies nv.contains(#[trigger] st[m]) by {
                if m < i {
                    assert(src.take(i as int)[m] == st[m]);
                    let k = choose|k: int| 0 <= k < ov.len() && ov[k] == st[m];
                    if k < j {
                        assert(nv[k] == st[m]);
                    } else {
                        assert(nv[k + 1] == st[m]);
                    }
                } else {
                    assert(nv[j as int] == xv);
                }
            }
            assert forall|m: int| 0 <= m < nv.len() implies st.contains(#[trigger] nv[m]) by {
                if m < j {
                    assert(ov[m] == nv[m]);
                    assert(src.take(i as int).contains(ov[m]));
                    let k = choose|k: int| 0 <= k < i && src.take(i as int)[k] == ov[m];
                    assert(st[k] == nv[m]);
                } else if m == j {
                    assert(st[i as int] == nv[m]);
                } else {
                    assert(ov[m - 1] == nv[m]);
                    assert(src.take(i as int).contains(ov[m - 1]));
                    let k = choose|k: int| 0 <= k < i && src.take(i as int)[k] == ov[m - 1];
                    assert(st[k] == nv[m]);
                }
            }
        }
        i += 1;
    }
    assert(src.take(v.len() as int) =~= src);
    out
}

// ---------------------------------------------------------------------------
// Merging
// ---------------------------------------------------------------------------

/// Index of the first connector at or after `i` with the given id.
pub open spec fn app_index_from(l: Seq<AppView>, id: Seq<char>, i: int) -> Option<int>
    decreases l.len() - i,
{
    if i < 0 || i >= l.len() {
        None
    } else if l[i].id == id {
        Some(i)
    } else {
        app_index_from(l, id, i + 1)
    }
}

proof fn lemma_app_index(l: Seq<AppView>, id: Seq<char>, i: int)
    requires
        0 <= i,
    ensures
        app_index_from(l, id, i) matches Some(k) ==> i <= k < l.len() && l[k].id == id,
        app_index_from(l, id, i) is None ==> forall|k: int| i <= k < l.len() ==> l[k].id != id,
    decreases l.len() - i,
{
    if i < l.len() && l[i].id != id {
        lemma_app_index(l, id, i + 1);
    }
}

/// Inserts `x`, or puts it in place of the connector with the same id.
pub open spec fn upsert(l: Seq<AppView>, x: AppView) -> Seq<AppView> {
    match app_index_from(l, x.id, 0) {
        Some(k) => l.update(k, x),
        None => l.push(x),
    }
}

proof fn lemma_upsert_distinct(l: Seq<AppView>, k: Option<int>, x: AppView)
    requires
        ids_distinct(l),
        k == app_index_from(l, x.id, 0),
    ensures
        ids_distinct(match k {
            Some(k) => l.update(k, x),
            None => l.push(x),
        }),
{
    lemma_app_index(l, x.id, 0);
    let r = match k {
        Some(k) => l.update(k, x),
        None => l.push(x),
    };
    assert forall|a: int, b: int| 0 <= a < b < r.len() implies (#[trigger] r[a]).id != (#[trigger] r[b]).id by {
        match k {
            Some(k) => {},
            None => {},
        }
    }
}

pub open spec fn with_accessible(a: AppView, acc: bool) -> AppView {
    AppView { is_accessible: acc, ..a }
}

/// The connector directory keyed by id, later duplicates replacing earlier
/// ones, none marked accessible yet.
pub open spec fn directory_list(cs: Seq<AppView>) -> Seq<AppView>
    decreases cs.len(),
{
    if cs.len() == 0 {
        Seq::empty()
    } else {
        upsert(directory_list(cs.drop_last()), with_accessible(cs.last(), false))
    }
}

/// An existing connector updated from an accessible one with the same id:
/// it becomes accessible, takes the other's name when its own name is just
/// its id and the other's is not, and takes each optional field it lacks.
pub open spec fn absorb(e: AppView, a: AppView) -> AppView {
    AppView {
        id: e.id,
        name: if e.name == e.id && a.name != a.id {
            a.name
        } else {
            e.name
        },
        description: if e.description is None {
            a.description
        } else {
            e.description
        },
        logo_url: if e.logo_url is None {
            a.logo_url
        } else {
            e.logo_url
        },
        logo_url_dark: if e.logo_url_dark is None {
            a.logo_url_dark
        } else {
            e.logo_url_dark
        },
        distribution_channel: if e.distribution_channel is None {
            a.distribution_channel
        } else {
            e.distribution_channel
        },
        install_url: e.install_url,
        is_accessible: true,
    }
}

pub open spec fn access_step(l: Seq<AppView>, a: AppView) -> Seq<AppView> {
    match app_index_from(l, a.id, 0) {
        Some(k) => l.update(k, absorb(l[k], a)),
        None => l.push(with_accessible(a, true)),
    }
}

/// `l` with the accessible connectors folded in, in order.
pub open spec fn access_list(l: Seq<AppView>, accs: Seq<AppView>) -> Seq<AppView>
    decreases accs.len(),
{
    if accs.len() == 0 {
        l
    } else {
        access_step(access_list(l, accs.drop_last()), accs.last())
    }
}

pub open spec fn fill_install_url(a: AppView) -> AppView {
    if a.install_url is None {
        AppView { install_url: Some(install_url(a.name, a.id)), ..a }
    } else {
        a
    }
}

pub open spec fn with_install_urls(l: Seq<AppView>) -> Seq<AppView> {
    Seq::new(l.len(), |i: int| fill_install_url(l[i]))
}

/// The connectors `merge_connectors` lists, before ordering.
pub open spec fn merged_connectors(cs: Seq<AppView>, accs: Seq<AppView>) -> Seq<AppView> {
    with_install_urls(access_list(directory_list(cs), accs))
}

/// Index of the connector with the given id.
fn find_app(l: &Vec<AppInfo>, id: &[char]) -> (r: Option<usize>)
    ensures
        match r {
            Some(k) => app_index_from(apps_view(l@), id@, 0) == Some(k as int),
            None => app_index_from(apps_view(l@), id@, 0) is None,
        },
{
    let ghost lv = apps_view(l@);
    let mut i: usize = 0;
    while i < l.len()
        invariant
            i <= l.len(),
            lv == apps_view(l@),
            app_index_from(lv, id@, 0) == app_index_from(lv, id@, i as int),
        decreases l.len() - i,
    {
        let c = chars_of(l[i].id.as_str());
        if chars_eq(&c, id) {
            return Some(i);
        }
        i += 1;
    }
    None
}

fn take_if_none(e: &Option<String>, a: &Option<String>) -> (r: Option<String>)
    ensures
        opt_view(r) == (if opt_view(*e) is None {
            opt_view(*a)
        } else {
            opt_view(*e)
        }),
{
    match e {
        Some(_) => clone_opt(e),
        None => clone_opt(a),
    }
}

fn absorb_exec(e: &AppInfo, a: &AppInfo) -> (r: AppInfo)
    ensures
        r@ == absorb(e@, a@),
{
    let en = chars_of(e.name.as_str());
    let ei = chars_of(e.id.as_str());
    let an = chars_of(a.name.as_str());
    let ai = chars_of(a.id.as_str());
    let name = if chars_eq(&en, &ei) && !chars_eq(&an, &ai) {
        clone_string(&a.name)
    } else {
        clone_string(&e.name)
    };
    AppInfo {
        id: clone_string(&e.id),
        name,
        description: take_if_none(&e.description, &a.description),
        logo_url: take_if_none(&e.logo_url, &a.logo_url),
        logo_url_dark: take_if_none(&e.logo_url_dark, &a.logo_url_dark),
        distribution_channel: take_if_none(&e.distribution_channel, &a.distribution_channel),
        install_url: clone_opt(&e.install_url),
        is_accessible: true,
    }
}

/// Gives each connector without an install URL its default one.
fn fill_install_urls(v: &Vec<AppInfo>) -> (r: Vec<AppInfo>)
    requires
        ids_distinct(apps_view(v@)),
    ensures
        apps_view(r@) == with_install_urls(apps_view(v@)),
        ids_distinct(apps_view(r@)),
{
    let ghost pre = apps_view(v@);
    let mut filled: Vec<AppInfo> = Vec::new();
    let mut m: usize = 0;
    while m < v.len()
        invariant
            m <= v.len(),
            pre == apps_view(v@),
            apps_view(filled@) =~= with_install_urls(pre).take(m as int),
        decreases v.len() - m,
    {
        let mut c = clone_app(&v[m]);
        if c.install_url.is_none() {
            c.install_url = Some(connector_install_url(c.name.as_str(), c.id.as_str()));
        }
        assert(c@ == fill_install_url(pre[m as int]));
        let ghost prev = filled@;
        let ghost cv = c@;
        filled.push(c);
        assert(filled@ =~= prev.push(c));
        assert(apps_view(filled@) =~= apps_view(prev).push(cv));
        assert(apps_view(filled@) =~= with_install_urls(pre).take(m + 1));
        m += 1;
    }
    assert(apps_view(filled@) =~= with_install_urls(pre));
    assert forall|a: int, b: int| 0 <= a < b < apps_view(filled@).len() implies
        (#[trigger] apps_view(filled@)[a]).id != (#[trigger] apps_view(filled@)[b]).id by {
        assert(pre[a].id != pre[b].id);
    }
    filled
}

/// Merges the connector directory with the connectors the user can reach:
/// a directory entry reached by the user becomes accessible and fills in
/// missing details from the reachable one, reachable connectors missing from
/// the directory are added, every connector gets an install URL, and the
/// result is in listing order (accessible first, then by name, then by id).
pub fn merge_connectors(connectors: Vec<AppInfo>, accessible_connectors: Vec<AppInfo>) -> (r: Vec<AppInfo>)
    ensures
        sorted_listing(
            apps_view(r@),
            merged_connectors(apps_view(connectors@), apps_view(accessible_connectors@)),
        ),
{
    let ghost cs = apps_view(connectors@);
    let ghost accs = apps_view(accessible_connectors@);
    let mut merged: Vec<AppInfo> = Vec::new();
    let mut i: usize = 0;
    assert(directory_list(cs.take(0)) =~= Seq::<AppView>::empty());
    while i < connectors.len()
        invariant
            i <= connectors.len(),
            cs == apps_view(connectors@),
            apps_view(merged@) == directory_list(cs.take(i as int)),
            ids_distinct(apps_view(merged@)),
        decreases connectors.len() - i,
    {
        let mut c = clone_app(&connectors[i]);
        c.is_accessible = false;
        let idc = chars_of(c.id.as_str());
        let ghost before = apps_view(merged@);
        let k = find_app(&merged, &idc);
        proof {
            assert(cs.take(i + 1).drop_last() =~= cs.take(i as int));
            assert(cs.take(i + 1).last() == cs[i as int]);
            assert(c@ == with_accessible(cs[i as int], false));
            lemma_app_index(before, c@.id, 0);
            lemma_upsert_distinct(before, app_index_from(before, c@.id, 0), c@);
        }
        match k {
            Some(k) => {
                merged.set(k, c);
            },
            None => {
                merged.push(c);
            },
        }
        assert(apps_view(merged@) =~= directory_list(cs.take(i + 1)));
        i += 1;
    }
    assert(cs.take(connectors.len() as int) =~= cs);
    let ghost base = apps_view(merged@);
    let mut j: usize = 0;
    assert(accs.take(0) =~= Seq::<AppView>::empty());
    while j < accessible_connectors.len()
        invariant
            j <= accessible_connectors.len(),
            accs == apps_view(accessible_connectors@),
            apps_view(merged@) == access_list(base, accs.take(j as int)),
            ids_distinct(apps_view(merged@)),
        decreases accessible_connectors.len() - j,
    {
        let a = &accessible_connectors[j];
        let ida = chars_of(a.id.as_str());
        let ghost before = apps_view(merged@);
        let k = find_app(&merged, &ida);
        proof {
            assert(accs.take(j + 1).drop_last() =~= accs.take(j as int));
            assert(accs.take(j + 1).last() == a@);
            lemma_app_index(before, a@.id, 0);
        }
        match k {
            Some(k) => {
                let updated = absorb_exec(&merged[k], a);
                proof {
                    lemma_upsert_distinct(before, Some(k as int), updated@);
                }
                merged.set(k, updated);
            },
            None => {
                let mut c = clone_app(a);
                c.is_accessible = true;
                proof {
                    lemma_upsert_distinct(before, None, c@);
                }
                merged.push(c);
            },
        }
        assert(apps_view(merged@) =~= access_list(base, accs.take(j + 1)));
        j += 1;
    }
    assert(accs.take(accessible_connectors.len() as int) =~= accs);
    let filled = fill_install_urls(&merged);
    sort_apps(&filled)
}

/// A reachable connector named `name` (its id when unnamed), not yet given
/// an install URL.
pub open spec fn reachable_entry(id: Seq<char>, name: Seq<char>) -> AppView {
    AppView {
        id: id,
        name: name,
        description: None,
        logo_url: None,
        logo_url_dark: None,
        distribution_channel: None,
        install_url: None,
        is_accessible: true,
    }
}

/// Adds one reachable tool's connector: a new id is added; for a known id
/// the name is replaced only when it is just the id and the new name is not.
pub open spec fn collect_step(l: Seq<AppView>, id: Seq<char>, name: Option<Seq<char>>) -> Seq<AppView> {
    let n = match name {
        Some(n) => n,
        None => id,
    };
    match app_index_from(l, id, 0) {
        Some(k) => if l[k].name == id && n != id {
            l.update(k, AppView { name: n, ..l[k] })
        } else {
            l
        },
        None => l.push(reachable_entry(id, n)),
    }
}

pub open spec fn collect_list(tools: Seq<(Seq<char>, Option<Seq<char>>)>) -> Seq<AppView>
    decreases tools.len(),
{
    if tools.len() == 0 {
        Seq::empty()
    } else {
        collect_step(collect_list(tools.drop_last()), tools.last().0, tools.last().1)
    }
}

pub open spec fn tools_view(t: Seq<(String, Option<String>)>) -> Seq<(Seq<char>, Option<Seq<char>>)> {
    t.map_values(|p: (String, Option<String>)| (p.0@, opt_view(p.1)))
}

/// The connectors reachable through tools, given as `(connector id,
/// connector name)` pairs, one per connector id, with install URLs, in
/// listing order.
pub fn collect_accessible_connectors(tools: Vec<(String, Option<String>)>) -> (r: Vec<AppInfo>)
    ensures
        sorted_listing(apps_view(r@), with_install_urls(collect_list(tools_view(tools@)))),
{
    let ghost tv = tools_view(tools@);
    let mut l: Vec<AppInfo> = Vec::new();
    let mut i: usize = 0;
    assert(tv.take(0) =~= Seq::<(Seq<char>, Option<Seq<char>>)>::empty());
    while i < tools.len()
        invariant
            i <= tools.len(),
            tv == tools_view(tools@),
            apps_view(l@) == collect_list(tv.take(i as int)),
            ids_distinct(apps_view(l@)),
        decreases tools.len() - i,
    {
        let id = clone_string(&tools[i].0);
        let name = match &tools[i].1 {
            Some(n) => clone_string(n),
            None => clone_string(&id),
        };
        let idc = chars_of(id.as_str());
        let nc = chars_of(name.as_str());
        let ghost before = apps_view(l@);
        proof {
            assert(tv.take(i + 1).drop_last() =~= tv.take(i as int));
            assert(tv.take(i + 1).last() == tv[i as int]);
            lemma_app_index(before, idc@, 0);
        }
        match find_app(&l, &idc) {
            Some(k) => {
                let en = chars_of(l[k].name.as_str());
                if chars_eq(&en, &idc) && !chars_eq(&nc, &idc) {
                    let mut e = clone_app(&l[k]);
                    e.name = name;
                    proof {
                        lemma_upsert_distinct(before, Some(k as int), e@);
                    }
                    l.set(k, e);
                }
            },
            None => {
                let e = AppInfo {
                    id,
                    name,
                    description: None,
                    logo_url: None,
                    logo_url_dark: None,
                    distribution_channel: None,
                    install_url: None,
                    is_accessible: true,
                };
                proof {
                    lemma_upsert_distinct(before, None, e@);
                }
                l.push(e);
            },
        }
        assert(apps_view(l@) =~= collect_list(tv.take(i + 1)));
        i += 1;
    }
    assert(tv.take(tools.len() as int) =~= tv);
    let filled = fill_install_urls(&l);
    sort_apps(&filled)
}

/// The MCP server through which app connectors are reached.
pub fn codex_apps_mcp_server_name() -> (r: &'static str)
    ensures
        r@ == apps_server_name(),
{
    "codex_apps"
}

pub closed spec fn apps_server_name() -> Seq<char> {
    "codex_apps"@
}

/// What the connector logic reads of one MCP tool.
#[derive(Debug, Clone, PartialEq, Eq)]
pub struct ToolInfo {
    pub server_name: String,
    pub connector_id: Option<String>,
    pub connector_name: Option<String>,
}

pub struct ToolView {
    pub server_name: Seq<char>,
    pub connector_id: Option<Seq<char>>,
    pub connector_name: Option<Seq<char>>,
}

impl View for ToolInfo {
    type V = ToolView;

    open spec fn view(&self) -> ToolView {
        ToolView {
            server_name: self.server_name@,
            connector_id: opt_view(self.connector_id),
            connector_name: opt_view(self.connector_name),
        }
    }
}

/// The `(connector id, connector name)` pairs of the tools served by the
/// apps server that carry a connector id, in order.
pub open spec fn reachable_pairs(tools: Seq<ToolView>) -> Seq<(Seq<char>, Option<Seq<char>>)>
    decreases tools.len(),
{
    if tools.len() == 0 {
        Seq::empty()
    } else {
        let rest = reachable_pairs(tools.drop_last());
        let t = tools.last();
        if t.server_name == apps_server_name() && t.connector_id is Some {
            rest.push((t.connector_id->0, normalized_value(t.connector_name)))
        } else {
            rest
        }
    }
}

/// The connectors reachable through the given MCP tools (taken in the order
/// given): tools of other servers and tools without a connector id are
/// skipped, names are trimmed, and the rest is collected as
/// `collect_accessible_connectors` does.
pub fn accessible_connectors_from_mcp_tools(mcp_tools: &Vec<ToolInfo>) -> (r: Vec<AppInfo>)
    ensures
        sorted_listing(
            apps_view(r@),
            with_install_urls(collect_list(reachable_pairs(mcp_tools@.map_values(|t: ToolInfo| t@)))),
        ),
{
    let ghost tv = mcp_tools@.map_values(|t: ToolInfo| t@);
    let server = codex_apps_mcp_server_name();
    let sc = chars_of(server);
    let mut pairs: Vec<(String, Option<String>)> = Vec::new();
    let mut i: usize = 0;
    assert(tv.take(0) =~= Seq::<ToolView>::empty());
    while i < mcp_tools.len()
        invariant
            i <= mcp_tools.len(),
            tv == mcp_tools@.map_values(|t: ToolInfo| t@),
            sc@ == apps_server_name(),
            tools_view(pairs@) == reachable_pairs(tv.take(i as int)),
        decreases mcp_tools.len() - i,
    {
        let tool = &mcp_tools[i];
        proof {
            assert(tv.take(i + 1).drop_last() =~= tv.take(i as int));
            assert(tv.take(i + 1).last() == tool@);
        }
        let ghost prev = pairs@;
        let name_chars = chars_of(tool.server_name.as_str());
        if chars_eq(&name_chars, &sc) {
            match &tool.connector_id {
                Some(id) => {
                    let name = normalize_connector_value(match &tool.connector_name {
                        Some(n) => Some(n.as_str()),
                        None => None,
                    });
                    let pair = (id.clone(), name);
                    assert(pair.0@ == id@);
                    pairs.push(pair);
                    assert(pairs@ =~= prev.push(pair));
                    assert(tools_view(pairs@) =~= tools_view(prev).push((id@, opt_view(pair.1))));
                },
                None => {},
            }
        }
        assert(tools_view(pairs@) =~= reachable_pairs(tv.take(i + 1)));
        i += 1;
    }
    assert(tv.take(mcp_tools.len() as int) =~= tv);
    collect_accessible_connectors(pairs)
}


// ---------------------------------------------------------------------------
// What merging keeps
// ---------------------------------------------------------------------------

/// Some connector of `l` has this id.
pub open spec fn lists_id(l: Seq<AppView>, id: Seq<char>) -> bool {
    exists|i: int| 0 <= i < l.len() && (#[trigger] l[i]).id == id
}

/// Some connector of `l` with this id is accessible.
pub open spec fn accessible_id(l: Seq<AppView>, id: Seq<char>) -> bool {
    exists|i: int| 0 <= i < l.len() && (#[trigger] l[i]).id == id && l[i].is_accessible
}

proof fn lemma_directory(cs: Seq<AppView>)
    ensures
        ids_distinct(directory_list(cs)),
        forall|id: Seq<char>| lists_id(directory_list(cs), id) <==> lists_id(cs, id),
        forall|id: Seq<char>| !accessible_id(directory_list(cs), id),
    decreases cs.len(),
{
    if cs.len() > 0 {
        let init = cs.drop_last();
        lemma_directory(init);
        let l = directory_list(init);
        let x = with_accessible(cs.last(), false);
        let k = app_index_from(l, x.id, 0);
        lemma_app_index(l, x.id, 0);
        lemma_upsert_distinct(l, k, x);
        let r = directory_list(cs);
        assert forall|id: Seq<char>| lists_id(r, id) <==> lists_id(cs, id) by {
            if lists_id(cs, id) {
                let j = choose|j: int| 0 <= j < cs.len() && (#[trigger] cs[j]).id == id;
                if j < cs.len() - 1 {
                    assert(init[j] == cs[j]);
                    assert(init[j].id == id);
                    assert(lists_id(init, id));
                    assert(lists_id(l, id));
                    let i = choose|i: int| 0 <= i < l.len() && (#[trigger] l[i]).id == id;
                    match k {
                        Some(k) => {
                            if i == k {
                                assert(r[k].id == id);
                            } else {
                                assert(r[i].id == id);
                            }
                        },
                        None => {
                            assert(r[i].id == id);
                        },
                    }
                } else {
                    match k {
                        Some(k) => assert(r[k].id == id),
                        None => assert(r[l.len() as int].id == id),
                    }
                }
            }
            if lists_id(r, id) {
                let i = choose|i: int| 0 <= i < r.len() && (#[trigger] r[i]).id == id;
                if id == x.id {
                    assert(cs[cs.len() - 1].id == id);
                } else {
                    assert(l[i].id == id);
                    assert(lists_id(init, id));
                    let j = choose|j: int| 0 <= j < init.len() && (#[trigger] init[j]).id == id;
                    assert(cs[j].id == id);
                }
            }
        }
        assert forall|id: Seq<char>| !accessible_id(r, id) by {
            if accessible_id(r, id) {
                let i = choose|i: int| 0 <= i < r.len() && (#[trigger] r[i]).id == id && r[i].is_accessible;
                match k {
                    Some(k) => {
                        assert(r == l.update(k, x));
                        if i != k {
                            assert(r[i] == l[i]);
                            assert(l[i].id == id && l[i].is_accessible);
                            assert(accessible_id(l, id));
                        } else {
                            assert(r[i] == x);
                        }
                    },
                    None => {
                        assert(r == l.push(x));
                        if i < l.len() {
                            assert(r[i] == l[i]);
                            assert(l[i].id == id && l[i].is_accessible);
                            assert(accessible_id(l, id));
                        } else {
                            assert(r[i] == x);
                        }
                    },
                }
            }
        }
    }
}

proof fn lemma_access(l: Seq<AppView>, accs: Seq<AppView>)
    requires
        ids_distinct(l),
    ensures
        ids_distinct(access_list(l, accs)),
        forall|id: Seq<char>| lists_id(access_list(l, accs), id) <==> (lists_id(l, id) || lists_id(accs, id)),
        forall|id: Seq<char>| accessible_id(access_list(l, accs), id) <==> (accessible_id(l, id) || lists_id(accs, id)),
    decreases accs.len(),
{
    if accs.len() > 0 {
        let init = accs.drop_last();
        let a = accs.last();
        lemma_access(l, init);
        let m = access_list(l, init);
        let k = app_index_from(m, a.id, 0);
        lemma_app_index(m, a.id, 0);
        let r = access_list(l, accs);
        assert(ids_distinct(r)) by {
            match k {
                Some(k) => {
                    assert forall|x: int, y: int| 0 <= x < y < r.len() implies (#[trigger] r[x]).id != (#[trigger] r[y]).id by {
                        assert(m[x].id == r[x].id && m[y].id == r[y].id);
                    }
                },
                None => {
                    lemma_upsert_distinct(m, k, with_accessible(a, true));
                },
            }
        }
        assert forall|id: Seq<char>| lists_id(accs, id) <==> (lists_id(init, id) || id == a.id) by {
            if lists_id(accs, id) {
                let j = choose|j: int| 0 <= j < accs.len() && (#[trigger] accs[j]).id == id;
                if j < accs.len() - 1 {
                    assert(init[j].id == id);
                }
            }
            if lists_id(init, id) {
                let j = choose|j: int| 0 <= j < init.len() && (#[trigger] init[j]).id == id;
                assert(accs[j].id == id);
            }
            if id == a.id {
                assert(accs[accs.len() - 1].id == id);
            }
        }
        assert forall|id: Seq<char>| lists_id(r, id) <==> (lists_id(m, id) || id == a.id) by {
            if lists_id(r, id) {
                let i = choose|i: int| 0 <= i < r.len() && (#[trigger] r[i]).id == id;
                match k {
                    Some(k) => {
                        assert(m[i].id == id);
                    },
                    None => {
                        if i < m.len() {
                            assert(m[i].id == id);
                        }
                    },
                }
            }
            if lists_id(m, id) {
                let i = choose|i: int| 0 <= i < m.len() && (#[trigger] m[i]).id == id;
                assert(r[i].id == id);
            }
            if id == a.id {
                match k {
                    Some(k) => assert(r[k].id == id),
                    None => assert(r[m.len() as int].id == id),
                }
            }
        }
        assert forall|id: Seq<char>| accessible_id(r, id) <==> (accessible_id(m, id) || id == a.id) by {
            if accessible_id(r, id) && id != a.id {
                let i = choose|i: int| 0 <= i < r.len() && (#[trigger] r[i]).id == id && r[i].is_accessible;
                match k {
                    Some(k) => {
                        assert(i != k);
                        assert(m[i].id == id && m[i].is_accessible);
                    },
                    None => {
                        assert(i < m.len());
                        assert(m[i].id == id && m[i].is_accessible);
                    },
                }
            }
            if accessible_id(m, id) {
                let i = choose|i: int| 0 <= i < m.len() && (#[trigger] m[i]).id == id && m[i].is_accessible;
                match k {
                    Some(k) => {
                        assert(r[i].id == id && r[i].is_accessible);
                    },
                    None => {
                        assert(r[i].id == id && r[i].is_accessible);
                    },
                }
            }
            if id == a.id {
                match k {
                    Some(k) => assert(r[k].id == id && r[k].is_accessible),
                    None => assert(r[m.len() as int].id == id && r[m.len() as int].is_accessible),
                }
            }
        }
    }
}

/// Merging lists every connector once: each of the directory and each the
/// user can reach; a listed connector is accessible exactly when the user
/// can reach it, and each has an install URL.
pub proof fn law_merge_listing(cs: Seq<AppView>, accs: Seq<AppView>)
    ensures
        ids_distinct(merged_connectors(cs, accs)),
        forall|id: Seq<char>| lists_id(merged_connectors(cs, accs), id) <==> (lists_id(cs, id) || lists_id(accs, id)),
        forall|i: int| 0 <= i < merged_connectors(cs, accs).len() ==>
            ((#[trigger] merged_connectors(cs, accs)[i]).is_accessible <==> lists_id(accs, merged_connectors(cs, accs)[i].id)),
        forall|i: int| 0 <= i < merged_connectors(cs, accs).len() ==>
            (#[trigger] merged_connectors(cs, accs)[i]).install_url is Some,
{
    let d = directory_list(cs);
    lemma_directory(cs);
    lemma_access(d, accs);
    let l = access_list(d, accs);
    let r = merged_connectors(cs, accs);
    assert forall|i: int| 0 <= i < r.len() implies r[i].id == l[i].id && r[i].is_accessible == l[i].is_accessible
        && r[i].install_url is Some by {}
    assert forall|id: Seq<char>| lists_id(r, id) <==> lists_id(l, id) by {
        if lists_id(r, id) {
            let i = choose|i: int| 0 <= i < r.len() && (#[trigger] r[i]).id == id;
            assert(l[i].id == id);
        }
        if lists_id(l, id) {
            let i = choose|i: int| 0 <= i < l.len() && (#[trigger] l[i]).id == id;
            assert(r[i].id == id);
        }
    }
    assert forall|i: int| 0 <= i < r.len() implies ((#[trigger] r[i]).is_accessible <==> lists_id(accs, r[i].id)) by {
        if r[i].is_accessible {
            assert(l[i].is_accessible);
            assert(accessible_id(l, l[i].id));
        }
        if lists_id(accs, r[i].id) {
            assert(accessible_id(l, l[i].id));
            let j = choose|j: int| 0 <= j < l.len() && (#[trigger] l[j]).id == l[i].id && l[j].is_accessible;
            if j != i {
                assert(l[j].id != l[i].id);
            }
        }
    }
    assert(ids_distinct(r)) by {
        assert forall|x: int, y: int| 0 <= x < y < r.len() implies (#[trigger] r[x]).id != (#[trigger] r[y]).id by {
            assert(l[x].id != l[y].id);
        }
    }
}

/// An ASCII digit or lower-case ASCII letter.
pub open spec fn digit_or_lower(c: char) -> bool {
    ('0' <= c && c <= '9') || ('a' <= c && c <= 'z')
}

proof fn lemma_trim_dashes_unchanged(s: Seq<char>)
    requires
        s.len() > 0,
        s[0] != '-',
        s[s.len() - 1] != '-',
    ensures
        trim_dashes(s) == s,
{
    assert(dash_lead(s, 0) == 0);
    assert(dash_trail(s, 0, s.len() as int) == s.len());
    assert(s.subrange(0, s.len() as int) =~= s);
}

proof fn lemma_dash_lead_bounds(s: Seq<char>, i: int)
    requires
        0 <= i <= s.len(),
    ensures
        i <= dash_lead(s, i) <= s.len(),
        forall|k: int| i <= k < dash_lead(s, i) ==> s[k] == '-',
        dash_lead(s, i) < s.len() ==> s[dash_lead(s, i)] != '-',
    decreases s.len() - i,
{
    if i < s.len() && s[i] == '-' {
        lemma_dash_lead_bounds(s, i + 1);
    }
}

proof fn lemma_dash_trail_bounds(s: Seq<char>, lo: int, j: int)
    requires
        0 <= lo <= j <= s.len(),
    ensures
        lo <= dash_trail(s, lo, j) <= j,
    decreases j - lo,
{
    if j > lo && s[j - 1] == '-' {
        lemma_dash_trail_bounds(s, lo, j - 1);
    }
}

proof fn lemma_dash_trail_end(s: Seq<char>, lo: int, j: int)
    requires
        0 <= lo <= j <= s.len(),
    ensures
        dash_trail(s, lo, j) > lo ==> s[dash_trail(s, lo, j) - 1] != '-',
    decreases j - lo,
{
    if j > lo && s[j - 1] == '-' {
        lemma_dash_trail_end(s, lo, j - 1);
    }
}

/// The slug of a name keeps its ASCII letters and digits where they stand:
/// for a name that begins and ends with an ASCII letter or digit, the slug
/// has the name's length, each digit and lower-case letter is kept, each
/// upper-case letter is lower-cased, and every other character becomes `-`
/// (so a name of ASCII digits is its own slug). Whatever the name, the slug
/// is made only of digits, lower-case letters and `-`, is never empty, and
/// neither begins nor ends with `-`.
pub proof fn law_slug_keeps_letters_and_digits(name: Seq<char>)
    ensures
        name.len() > 0 && is_ascii_alphanumeric(name[0]) && is_ascii_alphanumeric(name[name.len() - 1]) ==> {
            let slug = name_slug(name);
            &&& slug.len() == name.len()
            &&& forall|i: int| 0 <= i < name.len() && digit_or_lower(name[i]) ==> #[trigger] slug[i] == name[i]
            &&& forall|i: int|
                0 <= i < name.len() && 'A' <= name[i] && name[i] <= 'Z' ==> #[trigger] slug[i] == ascii_lower(name[i])
            &&& forall|i: int| 0 <= i < name.len() && !is_ascii_alphanumeric(name[i]) ==> #[trigger] slug[i] == '-'
        },
        forall|i: int|
            0 <= i < name_slug(name).len() ==> digit_or_lower(#[trigger] name_slug(name)[i]) || name_slug(name)[i]
                == '-',
        name_slug(name).len() > 0,
        name_slug(name)[0] != '-',
        name_slug(name)[name_slug(name).len() - 1] != '-',
{
    let raw = Seq::new(name.len(), |i: int| slug_char(name[i]));
    assert forall|i: int| 0 <= i < raw.len() implies digit_or_lower(#[trigger] raw[i]) || raw[i] == '-' by {
        let c = name[i];
        if 'A' <= c && c <= 'Z' {
            assert(ascii_lower(c) == (((c as u8) + 32) as u8) as char);
            assert('a' <= ascii_lower(c) && ascii_lower(c) <= 'z') by {
                assert(65 <= c as u8 <= 90);
            }
        }
    }
    if name.len() > 0 && is_ascii_alphanumeric(name[0]) && is_ascii_alphanumeric(name[name.len() - 1]) {
        assert(raw[0] != '-');
        assert(raw[raw.len() - 1] != '-');
        lemma_trim_dashes_unchanged(raw);
    }
    let lo = dash_lead(raw, 0);
    lemma_dash_lead_bounds(raw, 0);
    lemma_dash_trail_bounds(raw, lo, raw.len() as int);
    let t = trim_dashes(raw);
    let hi = dash_trail(raw, lo, raw.len() as int);
    lemma_dash_trail_end(raw, lo, raw.len() as int);
    if t.len() > 0 {
        assert(t[0] == raw[lo]);
        assert(lo < raw.len());
        assert(raw[lo] != '-');
        assert(t[t.len() - 1] == raw[hi - 1]);
    } else {
        reveal_strlit("app");
    }
    assert forall|i: int| 0 <= i < name_slug(name).len() implies digit_or_lower(#[trigger] name_slug(name)[i])
        || name_slug(name)[i] == '-' by {
        if t.len() == 0 {
            assert(name_slug(name) == app_word());
        } else {
            assert(name_slug(name)[i] == raw[lo + i]);
        }
    }
}

} // verus!
