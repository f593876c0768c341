//! Cache of the assigned issues, in the order of their groups.
//!
//! The background refresh hands the whole list to [`IssueCache::put`]; readers
//! serve whatever was put last. There is no expiry.

use vstd::prelude::*;
use vstd::string::*;

use crate::api::Issue;
use crate::order::{in_order, into_sorted, sorted, Ranked};
use crate::text::{
    after_first, before_first, has_prefix, has_substring, joined, lemma_first_at,
    lemma_trim_padded, occurs_at, split_after, split_before, starts_with, str_before, str_eq,
    text_before, trim, trimmed, Fringe,
};

verus! {

/// The group namespace in the web address of an issue or merge request: what
/// stands between the host and the first `/-/`, without slashes at either end;
/// empty where nothing stands there.
pub open spec fn namespace(web_url: Seq<char>) -> Seq<char> {
    let rest = after_first(web_url, "://"@, web_url);
    let path = after_first(rest, "/"@, Seq::empty());
    trimmed(before_first("/"@ + path, "/-/"@), Fringe::Slash)
}

/// The group namespace in a web address such as
/// `https://host/<namespace>/-/issues/<iid>`; empty where there is none.
pub fn namespace_of(web_url: &str) -> (r: String)
    ensures
        r@ == namespace(web_url@),
{
    let rest: String = match split_after(web_url, "://") {
        Some(s) => {
            assert(s@ == after_first(web_url@, "://"@, web_url@));
            s
        },
        None => web_url.to_owned(),
    };
    let path: String = match split_after(rest.as_str(), "/") {
        Some(s) => {
            assert(s@ == after_first(rest@, "/"@, Seq::empty()));
            s
        },
        None => String::new(),
    };
    let rooted = joined("/", path.as_str());
    let first = split_before(rooted.as_str(), "/-/");
    trim(first.as_str(), Fringe::Slash)
}

/// Whether a namespace is a group or one of its descendants.
pub open spec fn under_group(namespace: Seq<char>, group: Seq<char>) -> bool {
    let g = trimmed(group, Fringe::Slash);
    g.len() > 0 && (namespace == g || starts_with(namespace, g + "/"@))
}

/// Whether `namespace` is `group` or one of its descendants.
pub fn in_group(namespace: &str, group: &str) -> (r: bool)
    ensures
        r == under_group(namespace@, group@),
{
    let g = trim(group, Fringe::Slash);
    if g.as_str().is_empty() {
        return false;
    }
    let prefix = joined(g.as_str(), "/");
    str_eq(namespace, g.as_str()) || has_prefix(namespace, prefix.as_str())
}

/// By group namespace.
impl Ranked for Issue {
    open spec fn before(self, other: Self) -> bool {
        text_before(namespace(self.web_url@), namespace(other.web_url@))
    }

    fn precedes(&self, other: &Self) -> (r: bool) {
        let a = namespace_of(self.web_url.as_str());
        let b = namespace_of(other.web_url.as_str());
        str_before(a.as_str(), b.as_str())
    }

    proof fn weak_order(x: Self, y: Self, z: Self) {
        let (a, b, c) = (namespace(x.web_url@), namespace(y.web_url@), namespace(z.web_url@));
        crate::text::lemma_text_weak_order(a, b, c);
        assert(x.before(y) == text_before(a, b));
        assert(y.before(x) == text_before(b, a));
        assert(y.before(z) == text_before(b, c));
        assert(x.before(z) == text_before(a, c));
    }
}

/// Accepts the issues in a group and its subgroups.
pub open spec fn of_group(group: Seq<char>) -> spec_fn(Issue) -> bool {
    |i: Issue| under_group(namespace(i.web_url@), group)
}

/// Accepts every issue but `iid` of a project.
pub open spec fn all_but(project_id: i64, iid: i64) -> spec_fn(Issue) -> bool {
    |i: Issue| !(i.project_id == project_id && i.iid == iid)
}

/// The first of `issues` that is `iid` of a project.
pub open spec fn first_issue(issues: Seq<Issue>, project_id: i64, iid: i64) -> Option<Issue>
    decreases issues.len(),
{
    if issues.len() == 0 {
        None
    } else if issues[0].project_id == project_id && issues[0].iid == iid {
        Some(issues[0])
    } else {
        first_issue(issues.drop_first(), project_id, iid)
    }
}

pub struct IssueCache {
    issues: Option<Vec<Issue>>,
    dirty: bool,
}

impl View for IssueCache {
    type V = Option<Seq<Issue>>;

    /// The cached issues, or `None` where nothing is cached.
    closed spec fn view(&self) -> Option<Seq<Issue>> {
        match self.issues {
            Some(v) => Some(v@),
            None => None,
        }
    }
}

/// What a cache holds, with nothing cached read as no issues.
pub open spec fn cached(c: Option<Seq<Issue>>) -> Seq<Issue> {
    match c {
        Some(s) => s,
        None => Seq::empty(),
    }
}

impl IssueCache {
    /// Whether there are changes that have not been saved.
    pub closed spec fn dirty(&self) -> bool {
        self.dirty
    }

    /// A cache with what was saved.
    pub fn open(saved: Option<Vec<Issue>>) -> (r: Self)
        ensures
            !r.dirty(),
            r@ == match saved {
                Some(v) => Some(sorted(v@)),
                None => None,
            },
    {
        match saved {
            Some(v) => IssueCache { issues: Some(into_sorted(v)), dirty: false },
            None => IssueCache { issues: None, dirty: false },
        }
    }

    /// Every cached issue in the order of the groups, or `None` where nothing is
    /// cached.
    pub fn get(&self) -> (r: Option<&Vec<Issue>>)
        ensures
            match r {
                Some(v) => self@ == Some(v@),
                None => self@ is None,
            },
    {
        match &self.issues {
            Some(v) => Some(v),
            None => None,
        }
    }

    /// The issues in `group` and its subgroups; none where nothing is cached.
    pub fn get_group(&self, group: &str) -> (r: Vec<Issue>)
        ensures
            r@ == cached(self@).filter(of_group(group@)),
    {
        let mut r: Vec<Issue> = Vec::new();
        match &self.issues {
            Some(v) => {
                let mut i: usize = 0;
                proof {
                    reveal(Seq::filter);
                    assert(v@.take(0) =~= Seq::<Issue>::empty());
                }
                while i < v.len()
                    invariant
                        i <= v@.len(),
                        r@ == v@.take(i as int).filter(of_group(group@)),
                    decreases v@.len() - i,
                {
                    proof {
                        reveal(Seq::filter);
                        assert(v@.take(i + 1).drop_last() =~= v@.take(i as int));
                    }
                    let ns = namespace_of(v[i].web_url.as_str());
                    if in_group(ns.as_str(), group) {
                        r.push(v[i].clone());
                    }
                    i += 1;
                }
                proof {
                    assert(v@.take(v@.len() as int) =~= v@);
                }
            },
            None => {
                proof {
                    reveal(Seq::filter);
                }
            },
        }
        r
    }

    /// Replaces the cache with `issues`.
    pub fn put(&mut self, issues: Vec<Issue>)
        ensures
            final(self)@ == Some(sorted(issues@)),
            final(self).dirty(),
    {
        self.issues = Some(into_sorted(issues));
        self.dirty = true;
    }

    /// Drops everything, so that the next `get` returns `None`.
    pub fn clear(&mut self)
        ensures
            final(self)@ is None,
            final(self).dirty(),
    {
        self.issues = None;
        self.dirty = true;
    }

    /// Drops the issue `iid` of a project; whether it was there. A close or an
    /// unassign leaves the list at once that way.
    pub fn remove_issue(&mut self, project_id: i64, issue_iid: i64) -> (r: bool)
        ensures
            r == (first_issue(cached(old(self)@), project_id, issue_iid) is Some),
            final(self).dirty() == (old(self).dirty() || r),
            !r ==> final(self)@ == old(self)@,
            final(self)@ == match old(self)@ {
                Some(s) => Some(s.filter(all_but(project_id, issue_iid))),
                None => None,
            },
    {
        let ghost before = self@;
        let mut taken: Option<Vec<Issue>> = None;
        std::mem::swap(&mut taken, &mut self.issues);
        match taken {
            Some(v) => {
                let ghost all = v@;
                let mut rest = crate::order::reversed(v);
                let mut kept: Vec<Issue> = Vec::new();
                let mut removed = false;
                let ghost p = all_but(project_id, issue_iid);
                proof {
                    reveal(Seq::filter);
                    assert(all.skip(0) =~= all);
                    assert(all.take(0) =~= Seq::<Issue>::empty());
                    assert(first_issue(all.take(0), project_id, issue_iid) is None);
                }
                while rest.len() > 0
                    invariant
                        p == all_but(project_id, issue_iid),
                        rest@.len() <= all.len(),
                        rest@ == all.skip(all.len() - rest@.len()).reverse(),
                        kept@ == all.take(all.len() - rest@.len()).filter(p),
                        self.dirty == old(self).dirty,
                        removed == (first_issue(
                            all.take(all.len() - rest@.len()),
                            project_id,
                            issue_iid,
                        ) is Some),
                    decreases rest@.len(),
                {
                    let ghost n = all.len() - rest@.len();
                    let ghost r0 = rest@;
                    match rest.pop() {
                        Some(x) => {
                            proof {
                                reveal(Seq::filter);
                                assert(r0.reverse() =~= all.skip(n));
                                assert(r0.reverse()[0] == x);
                                assert(all[n] == x);
                                assert(all.take(n + 1).drop_last() =~= all.take(n));
                                assert(all.take(n + 1) =~= all.take(n).push(x));
                                assert(rest@ =~= all.skip(n + 1).reverse());
                                lemma_first_push(all.take(n), x, project_id, issue_iid);
                            }
                            if x.project_id == project_id && x.iid == issue_iid {
                                removed = true;
                            } else {
                                kept.push(x);
                            }
                        },
                        None => {},
                    }
                }
                proof {
                    assert(all.take(all.len() as int) =~= all);
                }
                self.issues = Some(kept);
                if removed {
                    self.dirty = true;
                } else {
                    proof {
                        lemma_absent_unchanged(all, project_id, issue_iid);
                    }
                }
                removed
            },
            None => {
                self.issues = None;
                false
            },
        }
    }

    /// The global id of the cached issue `iid` of a project.
    pub fn issue_id(&self, project_id: i64, issue_iid: i64) -> (r: Option<i64>)
        ensures
            r == match first_issue(cached(self@), project_id, issue_iid) {
                Some(i) => Some(i.id),
                None => None,
            },
    {
        match &self.issues {
            Some(v) => {
                let mut i: usize = 0;
                proof {
                    assert(v@.skip(0) =~= v@);
                }
                while i < v.len()
                    invariant
                        i <= v@.len(),
                        self@ == Some(v@),
                        first_issue(v@, project_id, issue_iid) == first_issue(
                            v@.skip(i as int),
                            project_id,
                            issue_iid,
                        ),
                    decreases v@.len() - i,
                {
                    proof {
                        assert(v@.skip(i as int).drop_first() =~= v@.skip(i + 1));
                    }
                    if v[i].project_id == project_id && v[i].iid == issue_iid {
                        return Some(v[i].id);
                    }
                    i += 1;
                }
                None
            },
            None => None,
        }
    }

    /// Whether there are changes that have not been saved.
    pub fn is_dirty(&self) -> (r: bool)
        ensures
            r == self.dirty(),
    {
        self.dirty
    }

    /// Takes note that everything has been saved.
    pub fn mark_saved(&mut self)
        ensures
            final(self)@ == old(self)@,
            !final(self).dirty(),
    {
        self.dirty = false;
    }
}

proof fn lemma_absent_unchanged(s: Seq<Issue>, project_id: i64, iid: i64)
    requires
        first_issue(s, project_id, iid) is None,
    ensures
        s.filter(all_but(project_id, iid)) == s,
    decreases s.len(),
{
    reveal(Seq::filter);
    if s.len() > 0 {
        let init = s.drop_last();
        assert(s =~= init.push(s.last()));
        lemma_first_push(init, s.last(), project_id, iid);
        lemma_absent_unchanged(init, project_id, iid);
    }
}

proof fn lemma_first_push(s: Seq<Issue>, x: Issue, project_id: i64, iid: i64)
    ensures
        first_issue(s.push(x), project_id, iid) is Some <==> first_issue(s, project_id, iid) is Some
            || (x.project_id == project_id && x.iid == iid),
    decreases s.len(),
{
    if s.len() == 0 {
        assert(s.push(x).drop_first() =~= s);
    } else {
        lemma_first_push(s.drop_first(), x, project_id, iid);
        assert(s.push(x).drop_first() =~= s.drop_first().push(x));
    }
}

/// What is put is what is read, in group order: the same issues, no group in
/// front of one that comes before it, and the issues of a group in the order in
/// which they were put.
pub proof fn law_get_after_put(issues: Seq<Issue>, ns: Seq<char>)
    ensures
        sorted(issues).to_multiset() == issues.to_multiset(),
        in_order(sorted(issues)),
        sorted(issues).filter(|i: Issue| namespace(i.web_url@) == ns) == issues.filter(
            |i: Issue| namespace(i.web_url@) == ns,
        ),
{
    let class = |i: Issue| namespace(i.web_url@) == ns;
    assert(crate::order::one_rank(class)) by {
        crate::text::law_text_order(ns, ns, ns);
    }
    crate::order::law_sorted(issues, class);
}

/// A removed issue is gone: its id no longer resolves, and every other issue is
/// kept.
pub proof fn law_removed_issue_is_gone(issues: Seq<Issue>, project_id: i64, iid: i64)
    ensures
        first_issue(issues.filter(all_but(project_id, iid)), project_id, iid) is None,
        forall|i: int|
            0 <= i < issues.len() && !((#[trigger] issues[i]).project_id == project_id
                && issues[i].iid == iid) ==> issues.filter(all_but(project_id, iid)).contains(
                issues[i],
            ),
    decreases issues.len(),
{
    reveal(Seq::filter);
    let p = all_but(project_id, iid);
    if issues.len() > 0 {
        let init = issues.drop_last();
        law_removed_issue_is_gone(init, project_id, iid);
        let kept = issues.filter(p);
        if p(issues.last()) {
            lemma_first_push(init.filter(p), issues.last(), project_id, iid);
        }
        assert forall|i: int|
            0 <= i < issues.len() && !((#[trigger] issues[i]).project_id == project_id
                && issues[i].iid == iid) implies kept.contains(issues[i]) by {
            if i < init.len() {
                assert(init[i] == issues[i]);
                let q = init.filter(p);
                let j = choose|j: int| 0 <= j < q.len() && q[j] == issues[i];
                assert(kept[j] == issues[i]);
            } else {
                assert(kept[kept.len() - 1] == issues[i]);
            }
        }
    }
}

proof fn lemma_path_of(scheme: Seq<char>, host: Seq<char>, path: Seq<char>)
    requires
        !scheme.contains(':'),
        !host.contains('/'),
    ensures
        ({
            let web_url = scheme + "://"@ + (host + "/"@ + path);
            let rest = after_first(web_url, "://"@, web_url);
            after_first(rest, "/"@, Seq::empty()) == path
        }),
{
    reveal_strlit("://");
    reveal_strlit("/");
    let rest = host + "/"@ + path;
    let web_url = scheme + "://"@ + rest;
    let at = scheme.len() as int;
    assert(web_url.subrange(at, at + 3) =~= "://"@);
    assert forall|i: int| 0 <= i < at implies !occurs_at(web_url, "://"@, i) by {
        if occurs_at(web_url, "://"@, i) {
            assert(web_url.subrange(i, i + 3)[0] == ':');
            assert(scheme[i] == ':');
        }
    }
    lemma_first_at(web_url, "://"@, at, web_url);
    assert(web_url.subrange(at + 3, web_url.len() as int) =~= rest);
    let slash = host.len() as int;
    assert(rest.subrange(slash, slash + 1) =~= "/"@);
    assert forall|i: int| 0 <= i < slash implies !occurs_at(rest, "/"@, i) by {
        if occurs_at(rest, "/"@, i) {
            assert(rest.subrange(i, i + 1)[0] == '/');
            assert(host[i] == '/');
        }
    }
    lemma_first_at(rest, "/"@, slash, Seq::empty());
    assert(rest.subrange(slash + 1, rest.len() as int) =~= path);
}

/// The namespace of an address is read back from it.
pub proof fn law_namespace_is_read_back(
    scheme: Seq<char>,
    host: Seq<char>,
    ns: Seq<char>,
    tail: Seq<char>,
)
    requires
        !scheme.contains(':'),
        !host.contains('/'),
        ns.len() > 0 && ns[0] != '/' && ns.last() != '/',
        !has_substring("/"@ + ns + "/-"@, "/-/"@),
    ensures
        namespace(scheme + "://"@ + (host + "/"@ + (ns + "/-/"@ + tail))) == ns,
{
    reveal_strlit("/");
    reveal_strlit("/-");
    reveal_strlit("/-/");
    let path = ns + "/-/"@ + tail;
    lemma_path_of(scheme, host, path);
    let rooted = "/"@ + path;
    let head = "/"@ + ns + "/-"@;
    let at = ns.len() as int + 1;
    assert(rooted.subrange(at, at + 3) =~= "/-/"@);
    assert forall|i: int| 0 <= i < at implies !occurs_at(rooted, "/-/"@, i) by {
        if occurs_at(rooted, "/-/"@, i) {
            assert(head.subrange(i, i + 3) =~= rooted.subrange(i, i + 3));
            assert(occurs_at(head, "/-/"@, i));
        }
    }
    lemma_first_at(rooted, "/-/"@, at, Seq::empty());
    assert(rooted.subrange(0, at) =~= "/"@ + ns + Seq::<char>::empty());
    lemma_trim_padded("/"@, ns, Seq::empty(), Fringe::Slash);
}

/// An address without a namespace gives none, and matches no group.
pub proof fn law_no_namespace_is_in_no_group(
    scheme: Seq<char>,
    host: Seq<char>,
    tail: Seq<char>,
    group: Seq<char>,
)
    requires
        !scheme.contains(':'),
        !host.contains('/'),
    ensures
        ({
            let ns = namespace(scheme + "://"@ + (host + "/"@ + ("-/"@ + tail)));
            ns.len() == 0 && !under_group(ns, group)
        }),
{
    reveal_strlit("/");
    reveal_strlit("-/");
    reveal_strlit("/-/");
    let path = "-/"@ + tail;
    lemma_path_of(scheme, host, path);
    let rooted = "/"@ + path;
    assert(rooted.subrange(0, 3) =~= "/-/"@);
    lemma_first_at(rooted, "/-/"@, 0, Seq::empty());
    assert(rooted.subrange(0, 0) =~= Seq::<char>::empty());
}

/// A group holds itself and what lies below it, and nothing that merely starts
/// with the same letters.
pub proof fn law_group_membership(g: Seq<char>, rest: Seq<char>)
    requires
        g.len() > 0,
        g[0] != '/',
        g.last() != '/',
    ensures
        under_group(g, g),
        under_group(g + "/"@ + rest, g),
        rest.len() > 0 && rest[0] != '/' ==> !under_group(g + rest, g),
        !under_group(rest, Seq::empty()),
{
    reveal_strlit("/");
    assert(trim_left_keeps(g));
    assert(trimmed(g, Fringe::Slash) == g);
    let sub = g + "/"@ + rest;
    assert(sub.subrange(0, (g + "/"@).len() as int) =~= g + "/"@);
    if rest.len() > 0 && rest[0] != '/' {
        let longer = g + rest;
        assert(longer.len() != g.len());
        if starts_with(longer, g + "/"@) {
            assert(longer.subrange(0, (g + "/"@).len() as int)[g.len() as int] == '/');
            assert(longer[g.len() as int] == rest[0]);
        }
    }
}

/// A namespace is in a group, with or without slashes around the group's name,
/// exactly if it is the group or goes on with a slash after it.
pub proof fn law_group_membership_is_exact(
    ns: Seq<char>,
    left: Seq<char>,
    g: Seq<char>,
    right: Seq<char>,
)
    requires
        g.len() > 0,
        g[0] != '/',
        g.last() != '/',
        forall|i: int| 0 <= i < left.len() ==> #[trigger] left[i] == '/',
        forall|i: int| 0 <= i < right.len() ==> #[trigger] right[i] == '/',
    ensures
        under_group(ns, left + g + right) <==> ns == g || (ns.len() > g.len() && ns.take(
            g.len() as int,
        ) == g && ns[g.len() as int] == '/'),
{
    reveal_strlit("/");
    lemma_trim_padded(left, g, right, Fringe::Slash);
    let prefix = g + "/"@;
    if starts_with(ns, prefix) {
        let head = ns.subrange(0, prefix.len() as int);
        assert(ns.take(g.len() as int) =~= prefix.take(g.len() as int)) by {
            assert forall|i: int| 0 <= i < g.len() implies ns[i] == prefix[i] by {
                assert(head[i] == prefix[i]);
            }
        }
        assert(prefix.take(g.len() as int) =~= g);
        assert(head[g.len() as int] == '/');
    }
    if ns.len() > g.len() && ns.take(g.len() as int) == g && ns[g.len() as int] == '/' {
        assert(ns.subrange(0, prefix.len() as int) =~= prefix) by {
            assert forall|i: int| 0 <= i < prefix.len() implies ns[i] == prefix[i] by {
                if i < g.len() {
                    assert(ns.take(g.len() as int)[i] == g[i]);
                }
            }
        }
    }
}

/// Removing an issue leaves none of that project and number, and adds none.
pub proof fn law_removing_keeps_the_rest(issues: Seq<Issue>, project_id: i64, iid: i64, i: int)
    requires
        0 <= i < issues.filter(all_but(project_id, iid)).len(),
    ensures
        issues.contains(issues.filter(all_but(project_id, iid))[i]),
        !(issues.filter(all_but(project_id, iid))[i].project_id == project_id && issues.filter(
            all_but(project_id, iid),
        )[i].iid == iid),
    decreases issues.len(),
{
    reveal(Seq::filter);
    let p = all_but(project_id, iid);
    let init = issues.drop_last();
    let rest = init.filter(p);
    if i < rest.len() {
        law_removing_keeps_the_rest(init, project_id, iid, i);
        let j = choose|j: int| 0 <= j < init.len() && init[j] == rest[i];
        assert(issues[j] == rest[i]);
    } else {
        assert(issues[issues.len() - 1] == issues.filter(p)[i]);
    }
}

spec fn trim_left_keeps(g: Seq<char>) -> bool {
    crate::text::trim_left(g, Fringe::Slash) == g
}

/// The cached issues stand in the order of their namespaces.
pub proof fn law_issues_are_in_group_order(issues: Seq<Issue>, i: int, j: int)
    requires
        0 <= i < j < issues.len(),
    ensures
        sorted(issues).len() == issues.len(),
        !text_before(
            namespace(sorted(issues)[j].web_url@),
            namespace(sorted(issues)[i].web_url@),
        ),
{
    crate::order::law_sorted(issues, |x: Issue| true);
    let s = sorted(issues);
    assert(!s[j].before(s[i]));
}

} // verus!
