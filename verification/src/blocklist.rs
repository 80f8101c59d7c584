//! The blocklist: a set of domain names with exact and parent-suffix
//! matching.

use vstd::hash_set::StringHashSet;
use vstd::prelude::*;

use crate::names::{blocked_in, chars_of, is_parent, label_start, lowercase, lowercase_of};
use crate::rules::{parse_rule, rule_domain};

verus! {

/// The name that a line of a blocklist file adds: the domain of the line
/// in lower case. A line without a domain adds nothing, nor does one whose
/// domain is empty in lower case.
pub open spec fn rule_entry(line: Seq<char>) -> Option<Seq<char>> {
    match rule_domain(line) {
        Some(domain) => if lowercase_of(domain).len() > 0 {
            Some(lowercase_of(domain))
        } else {
            None
        },
        None => None,
    }
}

/// The names that the lines of a blocklist file add, in the order of the
/// lines. A name that comes twice stands twice.
pub open spec fn rule_entries(lines: Seq<Seq<char>>) -> Seq<Seq<char>> {
    lines.filter_map(|line: Seq<char>| rule_entry(line))
}

/// The lines of a file as sequences of characters.
pub open spec fn lines_view(lines: Seq<String>) -> Seq<Seq<char>> {
    lines.map_values(|line: String| line@)
}

/// A set of denied domain names.
///
/// Names are stored in lower case. A name is blocked when it is in the set
/// or when one of its parents of two labels or more is.
///
/// A dot at the end of a name is a character of the name like any other:
/// `example.com.` and `example.com` are two names, and neither blocks the
/// other. The proxy looks up the names of queries without the root's
/// trailing dot, so a rule is written without it; one that ends in a dot
/// matches no query.
pub struct BlockList {
    /// The names, for lookup.
    set: StringHashSet,
    /// The same names, each once, to list them.
    names: Vec<String>,
}

impl View for BlockList {
    type V = Set<Seq<char>>;

    closed spec fn view(&self) -> Set<Seq<char>> {
        self.set@
    }
}

impl BlockList {
    /// The two fields hold the same names, and `names` holds each once.
    pub closed spec fn consistent(&self) -> bool {
        &&& self.names@.len() == self.set@.len()
        &&& forall|i: int| 0 <= i < self.names@.len() ==> self.set@.contains(#[trigger] self.names@[i]@)
        &&& forall|i: int, j: int|
            0 <= i < j < self.names@.len() ==> #[trigger] self.names@[i]@ != #[trigger] self.names@[j]@
        &&& forall|s: Seq<char>| #[trigger]
            self.set@.contains(s) ==> exists|i: int|
                0 <= i < self.names@.len() && #[trigger] self.names@[i]@ == s
    }

    /// The invariant of the list: it holds finitely many names, and its
    /// fields agree.
    pub open spec fn wf(&self) -> bool {
        self@.finite() && self.consistent()
    }

    /// An empty blocklist.
    pub fn new() -> (list: BlockList)
        ensures
            list.wf(),
            list@ == Set::<Seq<char>>::empty(),
    {
        BlockList { set: StringHashSet::new(), names: Vec::new() }
    }

    /// Adds `name` as it stands.
    pub fn add_normalized(&mut self, name: String)
        requires
            old(self).wf(),
        ensures
            final(self).wf(),
            final(self)@ == old(self)@.insert(name@),
    {
        if !self.set.contains(name.as_str()) {
            let ghost before = self.names@;
            self.names.push(name.clone());
            self.set.insert(name);
            assert forall|s: Seq<char>| #[trigger] self.set@.contains(s) implies exists|i: int|
                0 <= i < self.names@.len() && #[trigger] self.names@[i]@ == s by {
                if s == name@ {
                    assert(self.names@[before.len() as int]@ == s);
                } else {
                    let i = choose|i: int| 0 <= i < before.len() && #[trigger] before[i]@ == s;
                    assert(self.names@[i]@ == s);
                }
            }
        } else {
            assert(self@.insert(name@) =~= self@);
        }
    }

    /// Adds `domain` in lower case, and otherwise as it is written: a dot
    /// at its end stays. Adding a name twice changes nothing.
    pub fn add(&mut self, domain: String)
        requires
            old(self).wf(),
        ensures
            final(self).wf(),
            final(self)@ == old(self)@.insert(lowercase_of(domain@)),
    {
        let name = lowercase(domain.as_str());
        self.add_normalized(name);
    }

    /// Removes `name` as it stands. Names that were added on their own
    /// stay, also those below `name`.
    pub fn remove_normalized(&mut self, name: &str)
        requires
            old(self).wf(),
        ensures
            final(self).wf(),
            final(self)@ == old(self)@.remove(name@),
    {
        if self.set.remove(name) {
            let ghost before = self.names@;
            let wanted = name.to_owned();
            let mut i: usize = 0;
            while i < self.names.len() && self.names[i] != wanted
                invariant
                    0 <= i <= self.names@.len(),
                    self.names@ == before,
                    wanted@ == name@,
                    forall|j: int| 0 <= j < i ==> #[trigger] before[j]@ != name@,
                    exists|j: int| 0 <= j < before.len() && #[trigger] before[j]@ == name@,
                decreases self.names@.len() - i,
            {
                i += 1;
            }
            self.names.remove(i);
            assert forall|s: Seq<char>| #[trigger] self.set@.contains(s) implies exists|j: int|
                0 <= j < self.names@.len() && #[trigger] self.names@[j]@ == s by {
                let j = choose|j: int| 0 <= j < before.len() && #[trigger] before[j]@ == s;
                if j < i {
                    assert(self.names@[j]@ == s);
                } else {
                    assert(self.names@[j - 1]@ == s);
                }
            }
        } else {
            assert(self@.remove(name@) =~= self@);
        }
    }

    /// Removes the lower-case form of `domain`, and no other name: neither
    /// the names below it nor the same name with or without a dot at its
    /// end. Removing a name that is not in the list changes nothing.
    pub fn remove(&mut self, domain: &str)
        requires
            old(self).wf(),
        ensures
            final(self).wf(),
            final(self)@ == old(self)@.remove(lowercase_of(domain@)),
    {
        let name = lowercase(domain);
        self.remove_normalized(name.as_str());
    }

    /// Whether `name`, taken as it stands, is in the list or has a parent
    /// of two labels or more in it.
    pub fn is_blocked_normalized(&self, name: &str) -> (blocked: bool)
        requires
            self.wf(),
        ensures
            blocked == blocked_in(self@, name@),
    {
        if self.set.contains(name) {
            return true;
        }
        let chars = chars_of(name);
        let n = chars.len();
        let mut k: usize = n;
        let mut dot_behind = false;
        while k > 0
            invariant
                0 <= k <= n,
                n == name@.len(),
                chars@ == name@,
                dot_behind == name@.skip(k as int).contains('.'),
                forall|j: int|
                    k < j <= n && #[trigger] label_start(name@, j) && name@.skip(j).contains('.')
                        ==> !self.set@.contains(name@.skip(j)),
            decreases k,
        {
            proof {
                lemma_skip_contains(name@, k as int - 1, '.');
            }
            if chars[k - 1] == '.' {
                if dot_behind {
                    let parent = name.substring_char(k, n);
                    assert(parent@ == name@.skip(k as int));
                    if self.set.contains(parent) {
                        assert(label_start(name@, k as int));
                        assert(is_parent(parent@, name@));
                        return true;
                    }
                }
                dot_behind = true;
            }
            k -= 1;
        }
        assert forall|parent: Seq<char>| is_parent(parent, name@) implies !#[trigger] self.set@.contains(
            parent,
        ) by {
            let j = choose|j: int| #[trigger]
                label_start(name@, j) && parent == name@.skip(j) && parent.contains('.');
            assert(label_start(name@, j));
        }
        false
    }

    /// Whether `domain` is blocked: its lower-case form is in the list, or a
    /// parent of that form is. The last label alone is never tried as a
    /// parent. A dot at the end of `domain` is taken as written: a fully
    /// qualified name is looked up with its dot.
    pub fn is_blocked(&self, domain: &str) -> (blocked: bool)
        requires
            self.wf(),
        ensures
            blocked == blocked_in(self@, lowercase_of(domain@)),
    {
        let name = lowercase(domain);
        self.is_blocked_normalized(name.as_str())
    }

    /// Every name in the list, once.
    pub fn get_all_domains(&self) -> (domains: Vec<String>)
        requires
            self.wf(),
        ensures
            domains@.len() == self@.len(),
            forall|i: int| 0 <= i < domains@.len() ==> self@.contains(#[trigger] domains@[i]@),
            forall|i: int, j: int|
                0 <= i < j < domains@.len() ==> #[trigger] domains@[i]@ != #[trigger] domains@[j]@,
            forall|s: Seq<char>| #[trigger]
                self@.contains(s) ==> exists|i: int|
                    0 <= i < domains@.len() && #[trigger] domains@[i]@ == s,
    {
        let mut domains: Vec<String> = Vec::new();
        let mut i: usize = 0;
        while i < self.names.len()
            invariant
                0 <= i <= self.names@.len(),
                domains@.len() == i,
                forall|j: int| 0 <= j < i ==> #[trigger] domains@[j]@ == self.names@[j]@,
            decreases self.names@.len() - i,
        {
            domains.push(self.names[i].clone());
            i += 1;
        }
        assert forall|s: Seq<char>| #[trigger] self@.contains(s) implies exists|i: int|
            0 <= i < domains@.len() && #[trigger] domains@[i]@ == s by {
            let i = choose|i: int| 0 <= i < self.names@.len() && #[trigger] self.names@[i]@ == s;
            assert(domains@[i]@ == s);
        }
        domains
    }

    /// Reads one line of a blocklist file and adds the name it holds, if
    /// any, in lower case and otherwise as the line spells it. Says whether
    /// the line added a name.
    pub fn load_line(&mut self, line: &str) -> (added: bool)
        requires
            old(self).wf(),
        ensures
            final(self).wf(),
            added == rule_entry(line@) is Some,
            final(self)@ == match rule_entry(line@) {
                Some(name) => old(self)@.insert(name),
                None => old(self)@,
            },
    {
        match parse_rule(line) {
            Some(domain) => {
                let name = lowercase(domain);
                if name.as_str().is_empty() {
                    false
                } else {
                    self.add_normalized(name);
                    true
                }
            },
            None => false,
        }
    }

    /// Reads the lines of a blocklist file in order and counts those that
    /// added a name. No line stops the load.
    pub fn load_lines(&mut self, lines: &Vec<String>) -> (count: usize)
        requires
            old(self).wf(),
        ensures
            final(self).wf(),
            final(self)@ == old(self)@.union(rule_entries(lines_view(lines@)).to_set()),
            count == rule_entries(lines_view(lines@)).len(),
    {
        let ghost all = lines_view(lines@);
        let mut count: usize = 0;
        let mut i: usize = 0;
        assert(old(self)@.union(rule_entries(all.take(0)).to_set()) =~= old(self)@);
        while i < lines.len()
            invariant
                0 <= i <= lines@.len(),
                all == lines_view(lines@),
                self.wf(),
                self@ == old(self)@.union(rule_entries(all.take(i as int)).to_set()),
                count == rule_entries(all.take(i as int)).len(),
                count <= i,
            decreases lines@.len() - i,
        {
            proof {
                let before = rule_entries(all.take(i as int));
                all.lemma_filter_map_take_succ(|line: Seq<char>| rule_entry(line), i as int);
                match rule_entry(lines@[i as int]@) {
                    Some(name) => {
                        assert(rule_entries(all.take(i + 1)) == before.push(name));
                        before.lemma_push_to_set_commute(name);
                        assert(old(self)@.union(before.push(name).to_set()) =~= old(self)@.union(
                            before.to_set(),
                        ).insert(name));
                    },
                    None => {
                        assert(rule_entries(all.take(i + 1)) == before);
                    },
                }
            }
            if self.load_line(lines[i].as_str()) {
                count += 1;
            }
            i += 1;
        }
        proof {
            assert(all.take(i as int) =~= all);
        }
        count
    }

    /// The number of names in the list.
    pub fn count(&self) -> (n: usize)
        requires
            self.wf(),
        ensures
            n == self@.len(),
    {
        self.names.len()
    }
}

impl Clone for BlockList {
    /// A list of its own with the same names.
    fn clone(&self) -> (copy: BlockList)
        ensures
            copy.wf(),
            self.wf() ==> copy@ == self@,
    {
        let mut copy = BlockList::new();
        let mut i: usize = 0;
        while i < self.names.len()
            invariant
                0 <= i <= self.names@.len(),
                copy.wf(),
                forall|j: int| 0 <= j < i ==> copy@.contains(#[trigger] self.names@[j]@),
                forall|s: Seq<char>| #[trigger]
                    copy@.contains(s) ==> exists|j: int| 0 <= j < i && #[trigger] self.names@[j]@ == s,
            decreases self.names@.len() - i,
        {
            copy.add_normalized(self.names[i].clone());
            i += 1;
        }
        proof {
            if self.wf() {
                assert(copy@ =~= self@);
            }
        }
        copy
    }
}

/// A name that is in the list is blocked.
pub proof fn law_listed_name_is_blocked(domains: Set<Seq<char>>, name: Seq<char>)
    ensures
        blocked_in(domains.insert(name), name),
        domains.contains(name) ==> blocked_in(domains, name),
{
}

/// A name under a listed name of two labels or more is blocked, whatever
/// stands before the dot that joins them.
pub proof fn law_subdomain_is_blocked(domains: Set<Seq<char>>, parent: Seq<char>, prefix: Seq<char>)
    requires
        domains.contains(parent),
        parent.contains('.'),
    ensures
        blocked_in(domains, prefix + seq!['.'] + parent),
{
    let name = prefix + seq!['.'] + parent;
    let k = prefix.len() as int + 1;
    assert(name[k - 1] == '.');
    assert(label_start(name, k));
    assert(name.skip(k) =~= parent);
    assert(is_parent(parent, name));
}

/// What `add` promises of `is_blocked`, both of which bring their argument
/// to lower case first. Once `domain` was added it is blocked. A name
/// `prefix.domain` under it is blocked too, where `domain` has two labels
/// or more and the lower-case form of `prefix.domain` is `front`, a dot,
/// and the lower-case form of `domain`, whatever `front` is.
pub proof fn law_added_domain_is_blocked(
    domains: Set<Seq<char>>,
    domain: Seq<char>,
    prefix: Seq<char>,
    front: Seq<char>,
)
    ensures
        blocked_in(domains.insert(lowercase_of(domain)), lowercase_of(domain)),
        lowercase_of(domain).contains('.') && lowercase_of(prefix + seq!['.'] + domain) == front
            + seq!['.'] + lowercase_of(domain) ==> blocked_in(
            domains.insert(lowercase_of(domain)),
            lowercase_of(prefix + seq!['.'] + domain),
        ),
{
    if lowercase_of(domain).contains('.') {
        law_subdomain_is_blocked(domains.insert(lowercase_of(domain)), lowercase_of(domain), front);
    }
}

/// What `is_blocked` says of a domain that was never added: it is not
/// blocked where neither its lower-case form nor anything that starts at
/// one of the later labels of that form is in the list.
pub proof fn law_unlisted_domain_is_not_blocked(domains: Set<Seq<char>>, domain: Seq<char>)
    ensures
        !domains.contains(lowercase_of(domain)) && (forall|k: int| #[trigger]
            label_start(lowercase_of(domain), k) ==> !domains.contains(lowercase_of(domain).skip(k)))
            ==> !blocked_in(domains, lowercase_of(domain)),
{
    if !domains.contains(lowercase_of(domain)) && (forall|k: int| #[trigger]
        label_start(lowercase_of(domain), k) ==> !domains.contains(lowercase_of(domain).skip(k))) {
        law_unlisted_name_is_not_blocked(domains, lowercase_of(domain));
    }
}

/// What `remove` promises of `is_blocked`: once `domain` was removed it is
/// blocked only through a parent of its lower-case form that is still in
/// the list.
pub proof fn law_removed_domain_is_blocked_by_parent_only(domains: Set<Seq<char>>, domain: Seq<char>)
    ensures
        blocked_in(domains.remove(lowercase_of(domain)), lowercase_of(domain)) <==> exists|
            parent: Seq<char>,
        | is_parent(parent, lowercase_of(domain)) && #[trigger] domains.contains(parent),
{
    law_removed_name_is_blocked_by_parent_only(domains, lowercase_of(domain));
}

/// A name is not blocked when neither the name nor anything that starts at
/// one of its later labels is in the list.
pub proof fn law_unlisted_name_is_not_blocked(domains: Set<Seq<char>>, name: Seq<char>)
    requires
        !domains.contains(name),
        forall|k: int| #[trigger] label_start(name, k) ==> !domains.contains(name.skip(k)),
    ensures
        !blocked_in(domains, name),
{
    assert forall|parent: Seq<char>| is_parent(parent, name) implies !#[trigger] domains.contains(
        parent,
    ) by {
        let k = choose|k: int| #[trigger]
            label_start(name, k) && parent == name.skip(k) && parent.contains('.');
        assert(label_start(name, k));
    }
}

/// Once a name is removed it is blocked only through a parent that is
/// still in the list.
pub proof fn law_removed_name_is_blocked_by_parent_only(domains: Set<Seq<char>>, name: Seq<char>)
    ensures
        blocked_in(domains.remove(name), name) <==> exists|parent: Seq<char>|
            is_parent(parent, name) && #[trigger] domains.contains(parent),
{
    let rest = domains.remove(name);
    assert forall|parent: Seq<char>| is_parent(parent, name) implies parent != name by {
        let k = choose|k: int| #[trigger]
            label_start(name, k) && parent == name.skip(k) && parent.contains('.');
        assert(parent.len() < name.len());
    }
    if blocked_in(rest, name) {
        let parent = choose|parent: Seq<char>| is_parent(parent, name) && #[trigger] rest.contains(parent);
        assert(domains.contains(parent));
    }
    if exists|parent: Seq<char>| is_parent(parent, name) && #[trigger] domains.contains(parent) {
        let parent = choose|parent: Seq<char>|
            is_parent(parent, name) && #[trigger] domains.contains(parent);
        assert(rest.contains(parent));
    }
}

/// A dot in `s` from `i` on is the character at `i` or a dot behind it.
proof fn lemma_skip_contains(s: Seq<char>, i: int, c: char)
    requires
        0 <= i < s.len(),
    ensures
        s.skip(i).contains(c) <==> (s[i] == c || s.skip(i + 1).contains(c)),
{
    let tail = s.skip(i);
    let rest = s.skip(i + 1);
    if tail.contains(c) {
        let j = choose|j: int| 0 <= j < tail.len() && tail[j] == c;
        if j > 0 {
            assert(rest[j - 1] == c);
        }
    }
    if s[i] == c {
        assert(tail[0] == c);
    }
    if rest.contains(c) {
        let j = choose|j: int| 0 <= j < rest.len() && rest[j] == c;
        assert(tail[j + 1] == c);
    }
}

} // verus!
