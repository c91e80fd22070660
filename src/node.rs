use vstd::prelude::*;

verus! {

/// A tree element: an identifier (not necessarily unique), the children it
/// owns, in order, and a payload.
pub struct Node<T> where T: Default {
    pub identifier: String,
    pub children: Vec<Node<T>>,
    pub content: T,
}

/// A fresh childless node named `id`.
pub open spec fn is_fresh<T: Default>(n: Node<T>, id: Seq<char>) -> bool {
    n.identifier@ == id && n.children@.len() == 0
}

/// The position of the first node of `s`, from position `k` on, whose
/// identifier is `id`.
pub open spec fn scan_from<T: Default>(s: Seq<Node<T>>, id: Seq<char>, k: int) -> Option<int>
    decreases s.len() - k,
{
    if k < 0 || k >= s.len() {
        None
    } else if s[k].identifier@ == id {
        Some(k)
    } else {
        scan_from(s, id, k + 1)
    }
}

/// Shallow search: the position of the first direct child of `n` named `id`.
pub open spec fn child_index<T: Default>(n: Node<T>, id: Seq<char>) -> Option<int> {
    scan_from(n.children@, id, 0)
}

/// `p` leads from `n` to a node: each step is the position of a child.
pub open spec fn valid_path<T: Default>(n: Node<T>, p: Seq<usize>) -> bool
    decreases p.len(),
{
    p.len() == 0 || (p[0] < n.children@.len() && valid_path(
        n.children@[p[0] as int],
        p.drop_first(),
    ))
}

/// The node that the path `p` leads to from `n`.
pub open spec fn subtree<T: Default>(n: Node<T>, p: Seq<usize>) -> Node<T>
    decreases p.len(),
{
    if p.len() == 0 || p[0] >= n.children@.len() {
        n
    } else {
        subtree(n.children@[p[0] as int], p.drop_first())
    }
}

/// `b` is `a` everywhere but in the node at the end of the path `p`, which
/// may differ.
pub open spec fn agree_off_path<T: Default>(a: Node<T>, b: Node<T>, p: Seq<usize>) -> bool
    decreases p.len(),
{
    if p.len() == 0 {
        true
    } else {
        let i = p[0] as int;
        &&& b.identifier == a.identifier
        &&& b.content == a.content
        &&& b.children@.len() == a.children@.len()
        &&& i < a.children@.len()
        &&& forall|j: int|
            0 <= j < a.children@.len() && j != i ==> #[trigger] b.children@[j] == a.children@[j]
        &&& agree_off_path(a.children@[i], b.children@[i], p.drop_first())
    }
}

/// `b` is `a` with the node at the end of the path `p` replaced by `m`.
pub open spec fn replaced_at<T: Default>(a: Node<T>, p: Seq<usize>, m: Node<T>, b: Node<T>) -> bool {
    agree_off_path(a, b, p) && subtree(b, p) == m
}

/// Deep search: the path to the first node named `id` in pre-order, `n`
/// itself first, then each child's subtree in turn.
pub open spec fn search<T: Default>(n: Node<T>, id: Seq<char>) -> Option<Seq<usize>>
    decreases n, n.children@.len() + 1,
{
    if n.identifier@ == id {
        Some(Seq::empty())
    } else {
        search_from(n, id, 0)
    }
}

/// Deep search in the subtrees of the children of `n` from position `k` on.
pub open spec fn search_from<T: Default>(n: Node<T>, id: Seq<char>, k: int) -> Option<
    Seq<usize>,
>
    decreases n, n.children@.len() - k,
{
    if k < 0 || k >= n.children@.len() {
        None
    } else {
        match search(n.children@[k], id) {
            Some(p) => Some(seq![k as usize] + p),
            None => search_from(n, id, k + 1),
        }
    }
}

/// Where a splice is anchored: the subject itself, or a child of the node
/// that `path` leads to, at position `index`.
pub enum Location {
    Subject,
    Child { path: Vec<usize>, index: usize },
}

impl Location {
    /// The (path to the containing node, position, is-a-child-match) triple
    /// that this location stands for; the subject is `([], 0, false)`.
    pub open spec fn spot(self) -> (Seq<usize>, int, bool) {
        match self {
            Location::Subject => (Seq::empty(), 0, false),
            Location::Child { path, index } => (path@, index as int, true),
        }
    }
}

/// Locate-for-splice below `n`: the first direct child named `id`, else the
/// first such match in each child's subtree in turn, as the path to the
/// containing node and the position in it.
pub open spec fn locate_below<T: Default>(n: Node<T>, id: Seq<char>) -> Option<(Seq<usize>, int)>
    decreases n, n.children@.len() + 1,
{
    match child_index(n, id) {
        Some(i) => Some((Seq::empty(), i)),
        None => locate_from(n, id, 0),
    }
}

/// Locate-for-splice in the subtrees of the children of `n` from position
/// `k` on.
pub open spec fn locate_from<T: Default>(n: Node<T>, id: Seq<char>, k: int) -> Option<
    (Seq<usize>, int),
>
    decreases n, n.children@.len() - k,
{
    if k < 0 || k >= n.children@.len() {
        None
    } else {
        match locate_below(n.children@[k], id) {
            Some((p, i)) => Some((seq![k as usize] + p, i)),
            None => locate_from(n, id, k + 1),
        }
    }
}

/// Locate-for-splice from the subject `n`: `([], 0, false)` where `n` itself
/// is named `id`, else the match below it with the flag set.
pub open spec fn locate<T: Default>(n: Node<T>, id: Seq<char>) -> Option<(Seq<usize>, int, bool)> {
    if n.identifier@ == id {
        Some((Seq::empty(), 0, false))
    } else {
        match locate_below(n, id) {
            Some((p, i)) => Some((p, i, true)),
            None => None,
        }
    }
}

/// `b` is `a` but for the children of the node that `p` leads to, which
/// are `cs` in `b`.
pub open spec fn children_become<T: Default>(a: Node<T>, p: Seq<usize>, b: Node<T>, cs: Seq<Node<T>>) -> bool {
    &&& agree_off_path(a, b, p)
    &&& subtree(b, p).identifier == subtree(a, p).identifier
    &&& subtree(b, p).content == subtree(a, p).content
    &&& subtree(b, p).children@ == cs
}

proof fn lemma_insert_update<A>(s: Seq<A>, k: int, x: A, y: A)
    requires
        0 <= k <= s.len(),
    ensures
        s.insert(k, x).update(k, y) == s.insert(k, y),
{
    assert(s.insert(k, x).update(k, y) =~= s.insert(k, y));
}

proof fn lemma_scan_hits<T: Default>(s: Seq<Node<T>>, id: Seq<char>, k: int, i: int)
    requires
        0 <= k <= i < s.len(),
        s[i].identifier@ == id,
        forall|j: int| k <= j < i ==> #[trigger] s[j].identifier@ != id,
    ensures
        scan_from(s, id, k) == Some(i),
    decreases i - k,
{
    if k < i {
        lemma_scan_hits(s, id, k + 1, i);
    }
}

proof fn lemma_scan_misses<T: Default>(s: Seq<Node<T>>, id: Seq<char>, k: int)
    requires
        0 <= k <= s.len(),
        forall|j: int| k <= j < s.len() ==> #[trigger] s[j].identifier@ != id,
    ensures
        scan_from(s, id, k) is None,
    decreases s.len() - k,
{
    if k < s.len() {
        lemma_scan_misses(s, id, k + 1);
    }
}

proof fn lemma_search_hits<T: Default>(n: Node<T>, id: Seq<char>, k: int, i: usize, q: Seq<usize>)
    requires
        0 <= k <= i < n.children@.len(),
        search(n.children@[i as int], id) == Some(q),
        forall|j: int| k <= j < i ==> #[trigger] search(n.children@[j as int], id) is None,
    ensures
        search_from(n, id, k) == Some(seq![i] + q),
    decreases i - k,
{
    if k < i {
        lemma_search_hits(n, id, k + 1, i, q);
    } else {
        assert(search(n.children@[k], id) == Some(q));
    }
}

/// A node is always located as the subject where its own identifier is
/// asked for: position 0, not a child match.
pub proof fn law_own_identifier_is_subject<T: Default>(n: Node<T>)
    ensures
        locate(n, n.identifier@) == Some((Seq::<usize>::empty(), 0int, false)),
{
}

/// A direct child with no earlier sibling of the same name is what the
/// shallow search finds.
pub proof fn law_local_finds_child<T: Default>(n: Node<T>, i: usize)
    requires
        i < n.children@.len(),
        forall|j: int| 0 <= j < i ==> #[trigger] n.children@[j].identifier@
            != n.children@[i as int].identifier@,
    ensures
        child_index(n, n.children@[i as int].identifier@) == Some(i as int),
{
    lemma_scan_hits(n.children@, n.children@[i as int].identifier@, 0, i as int);
}

/// A direct child is what the deep search finds where neither the node
/// itself nor any earlier sibling's subtree holds its name.
pub proof fn law_get_finds_child<T: Default>(n: Node<T>, i: usize)
    requires
        i < n.children@.len(),
        n.identifier@ != n.children@[i as int].identifier@,
        forall|j: int| 0 <= j < i ==> #[trigger] search(n.children@[j], n.children@[i as int].identifier@)
            is None,
    ensures
        search(n, n.children@[i as int].identifier@) == Some(seq![i]),
        subtree(n, seq![i]) == n.children@[i as int],
{
    let id = n.children@[i as int].identifier@;
    lemma_search_hits(n, id, 0, i, Seq::empty());
    assert(seq![i] + Seq::<usize>::empty() =~= seq![i]);
    assert(seq![i].drop_first() =~= Seq::<usize>::empty());
    assert(subtree(n.children@[i as int], Seq::<usize>::empty()) == n.children@[i as int]);
}

/// A grandchild whose name no direct child bears is missed by the shallow
/// search and found by the deep search, where nothing met before it in
/// pre-order holds its name.
pub proof fn law_grandchild_only_deep<T: Default>(r: Node<T>, i: usize, j: usize)
    requires
        i < r.children@.len(),
        j < r.children@[i as int].children@.len(),
        forall|k: int| 0 <= k < r.children@.len() ==> #[trigger] r.children@[k].identifier@
            != r.children@[i as int].children@[j as int].identifier@,
        r.identifier@ != r.children@[i as int].children@[j as int].identifier@,
        forall|k: int| 0 <= k < i ==> #[trigger] search(
            r.children@[k],
            r.children@[i as int].children@[j as int].identifier@,
        ) is None,
        forall|k: int| 0 <= k < j ==> #[trigger] search(
            r.children@[i as int].children@[k],
            r.children@[i as int].children@[j as int].identifier@,
        ) is None,
    ensures
        child_index(r, r.children@[i as int].children@[j as int].identifier@) is None,
        search(r, r.children@[i as int].children@[j as int].identifier@) == Some(seq![i, j]),
        subtree(r, seq![i, j]) == r.children@[i as int].children@[j as int],
{
    let c = r.children@[i as int];
    let id = c.children@[j as int].identifier@;
    lemma_scan_misses(r.children@, id, 0);
    lemma_search_hits(c, id, 0, j, Seq::empty());
    assert(seq![j] + Seq::<usize>::empty() =~= seq![j]);
    lemma_search_hits(r, id, 0, i, seq![j]);
    assert(seq![i] + seq![j] =~= seq![i, j]);
    assert(seq![i, j].drop_first() =~= seq![j]);
    assert(seq![j].drop_first() =~= Seq::<usize>::empty());
    assert(subtree(c.children@[j as int], Seq::<usize>::empty()) == c.children@[j as int]);
    assert(subtree(c, seq![j]) == c.children@[j as int]);
}

/// A name that no node of the tree bears is located nowhere, neither by the
/// shallow search nor for a splice.
pub proof fn law_absent_everywhere<T: Default>(n: Node<T>, id: Seq<char>)
    requires
        search(n, id) is None,
    ensures
        child_index(n, id) is None,
        locate(n, id) is None,
    decreases n, n.children@.len() + 1,
{
    lemma_absent_from(n, id, 0);
    assert forall|j: int| 0 <= j < n.children@.len() implies #[trigger] n.children@[j].identifier@
        != id by {
        assert(search(n.children@[j], id) is None);
    }
    lemma_scan_misses(n.children@, id, 0);
}

proof fn lemma_absent_from<T: Default>(n: Node<T>, id: Seq<char>, k: int)
    requires
        0 <= k,
        search_from(n, id, k) is None,
    ensures
        locate_from(n, id, k) is None,
        k < n.children@.len() ==> n.children@[k].identifier@ != id,
        forall|j: int| k <= j < n.children@.len() ==> search(#[trigger] n.children@[j], id) is None,
    decreases n, n.children@.len() - k,
{
    if k < n.children@.len() {
        let c = n.children@[k];
        law_absent_everywhere(c, id);
        lemma_absent_from(n, id, k + 1);
    }
}

impl<T> Node<T> where T: Default {
    /// A childless node whose content is the payload type's default value.
    pub fn new(identifier: &str) -> (r: Node<T>)
        ensures
            is_fresh(r, identifier@),
            call_ensures(T::default, (), r.content),
    {
        Node::<T> { identifier: identifier.to_owned(), children: Vec::new(), content: T::default() }
    }

    /// A childless node whose content is converted from `value`.
    pub fn new_value<V: Into<T>>(identifier: &str, value: V) -> (r: Node<T>)
        ensures
            is_fresh(r, identifier@),
            call_ensures(V::into, (value,), r.content),
    {
        Node::<T> { identifier: identifier.to_owned(), children: Vec::new(), content: value.into() }
    }
    /// Position of the first direct child named `id`.
    fn child_position(&self, id: &String) -> (r: Option<usize>)
        ensures
            r matches Some(i) ==> child_index(*self, id@) == Some(i as int) && i
                < self.children@.len() && self.children@[i as int].identifier@ == id@,
            r is None ==> child_index(*self, id@) is None,
    {
        let mut k: usize = 0;
        while k < self.children.len()
            invariant
                k <= self.children@.len(),
                scan_from(self.children@, id@, k as int) == child_index(*self, id@),
            decreases self.children@.len() - k,
        {
            if self.children[k].identifier == *id {
                return Some(k);
            }
            k = k + 1;
        }
        None
    }

    /// Shallow search: the first direct child named `identifier`.
    pub fn local(&mut self, identifier: &str) -> (r: Option<&mut Node<T>>)
        ensures
            child_index(*old(self), identifier@) is None ==> r is None && *final(self) == *old(self),
            child_index(*old(self), identifier@) matches Some(i) ==> {
                &&& r is Some
                &&& *r.unwrap() == old(self).children@[i]
                &&& final(self).identifier == old(self).identifier
                &&& final(self).content == old(self).content
                &&& final(self).children@ == old(self).children@.update(i, *final(r.unwrap()))
            },
    {
        let id = identifier.to_owned();
        match self.child_position(&id) {
            Some(i) => Some(&mut self.children[i]),
            None => None,
        }
    }
    /// The path to the first node named `id` in pre-order.
    fn search_path(&self, id: &String) -> (r: Option<Vec<usize>>)
        ensures
            r is None ==> search(*self, id@) is None,
            r matches Some(p) ==> search(*self, id@) == Some(p@) && valid_path(*self, p@)
                && subtree(*self, p@).identifier@ == id@,
        decreases self,
    {
        if self.identifier == *id {
            return Some(Vec::new());
        }
        let mut k: usize = 0;
        while k < self.children.len()
            invariant
                k <= self.children@.len(),
                self.identifier@ != id@,
                search_from(*self, id@, k as int) == search(*self, id@),
            decreases self.children@.len() - k,
        {
            match self.children[k].search_path(id) {
                Some(p) => {
                    let ghost q = p@;
                    let mut path = p;
                    path.insert(0, k);
                    proof {
                        assert(path@ =~= seq![k] + q);
                        assert(path@.drop_first() =~= q);
                    }
                    return Some(path);
                },
                None => {},
            }
            k = k + 1;
        }
        None
    }

    /// The node at the end of `path`, from its step `k` on.
    fn node_at_mut(&mut self, path: &Vec<usize>, k: usize) -> (r: &mut Node<T>)
        requires
            k <= path@.len(),
            valid_path(*old(self), path@.subrange(k as int, path@.len() as int)),
        ensures
            *r == subtree(*old(self), path@.subrange(k as int, path@.len() as int)),
            replaced_at(
                *old(self),
                path@.subrange(k as int, path@.len() as int),
                *final(r),
                *final(self),
            ),
        decreases path@.len() - k,
    {
        if k == path.len() {
            return self;
        }
        let ghost rest = path@.subrange(k as int + 1, path@.len() as int);
        proof {
            assert(path@.subrange(k as int, path@.len() as int).drop_first() =~= rest);
        }
        let i = path[k];
        let child = &mut self.children[i];
        child.node_at_mut(path, k + 1)
    }

    /// Deep search: the first node named `identifier` in pre-order, this
    /// node itself first.
    pub fn get(&mut self, identifier: &str) -> (r: Option<&mut Node<T>>)
        ensures
            search(*old(self), identifier@) is None ==> r is None && *final(self) == *old(self),
            search(*old(self), identifier@) matches Some(p) ==> {
                &&& r is Some
                &&& valid_path(*old(self), p)
                &&& *r.unwrap() == subtree(*old(self), p)
                &&& r.unwrap().identifier@ == identifier@
                &&& replaced_at(*old(self), p, *final(r.unwrap()), *final(self))
            },
    {
        let id = identifier.to_owned();
        match self.search_path(&id) {
            Some(p) => {
                proof {
                    assert(p@.subrange(0, p@.len() as int) =~= p@);
                }
                Some(self.node_at_mut(&p, 0))
            },
            None => None,
        }
    }
    /// Locate-for-splice below this node.
    fn find_below(&self, id: &String) -> (r: Option<(Vec<usize>, usize)>)
        ensures
            r is None ==> locate_below(*self, id@) is None,
            r matches Some((p, i)) ==> {
                &&& locate_below(*self, id@) == Some((p@, i as int))
                &&& valid_path(*self, p@)
                &&& i < subtree(*self, p@).children@.len()
                &&& subtree(*self, p@).children@[i as int].identifier@ == id@
            },
        decreases self,
    {
        match self.child_position(id) {
            Some(i) => {
                return Some((Vec::new(), i));
            },
            None => {},
        }
        let mut k: usize = 0;
        while k < self.children.len()
            invariant
                k <= self.children@.len(),
                child_index(*self, id@) is None,
                locate_from(*self, id@, k as int) == locate_below(*self, id@),
            decreases self.children@.len() - k,
        {
            match self.children[k].find_below(id) {
                Some((p, i)) => {
                    let ghost q = p@;
                    let mut path = p;
                    path.insert(0, k);
                    proof {
                        assert(path@ =~= seq![k] + q);
                        assert(path@.drop_first() =~= q);
                    }
                    return Some((path, i));
                },
                None => {},
            }
            k = k + 1;
        }
        None
    }

    /// Locate-for-splice: where `identifier` is anchored, this node itself
    /// first, then its direct children, then each child's subtree in turn.
    pub fn find(&self, identifier: &str) -> (r: Option<Location>)
        ensures
            r is None ==> locate(*self, identifier@) is None,
            r matches Some(l) ==> locate(*self, identifier@) == Some(l.spot()),
            r matches Some(Location::Child { path, index }) ==> {
                &&& valid_path(*self, path@)
                &&& index < subtree(*self, path@).children@.len()
                &&& subtree(*self, path@).children@[index as int].identifier@ == identifier@
            },
    {
        let id = identifier.to_owned();
        if self.identifier == id {
            return Some(Location::Subject);
        }
        match self.find_below(&id) {
            Some((path, index)) => Some(Location::Child { path, index }),
            None => None,
        }
    }

    /// Pushes a fresh node as the last child and hands it back.
    pub fn append<V: Into<T>>(&mut self, identifier: &str, value: V) -> (r: &mut Node<T>)
        ensures
            is_fresh(*r, identifier@),
            call_ensures(V::into, (value,), r.content),
            final(self).identifier == old(self).identifier,
            final(self).content == old(self).content,
            final(self).children@ == old(self).children@.push(*final(r)),
    {
        let fresh = Self::new_value(identifier, value);
        let ghost x = fresh;
        self.children.push(fresh);
        let last = self.children.len() - 1;
        proof {
            assert forall|y: Node<T>| #[trigger] old(self).children@.push(x).update(last as int, y)
                == old(self).children@.push(y) by {
                assert(old(self).children@.push(x).update(last as int, y) =~= old(
                    self,
                ).children@.push(y));
            }
        }
        &mut self.children[last]
    }

    /// Puts a fresh node in front of the children and hands it back.
    pub fn prepend<V: Into<T>>(&mut self, identifier: &str, value: V) -> (r: &mut Node<T>)
        ensures
            is_fresh(*r, identifier@),
            call_ensures(V::into, (value,), r.content),
            final(self).identifier == old(self).identifier,
            final(self).content == old(self).content,
            final(self).children@ == old(self).children@.insert(0, *final(r)),
    {
        let fresh = Self::new_value(identifier, value);
        let ghost x = fresh;
        self.children.insert(0, fresh);
        proof {
            assert forall|y: Node<T>| #[trigger] old(self).children@.insert(0, x).update(0, y)
                == old(self).children@.insert(0, y) by {
                lemma_insert_update(old(self).children@, 0, x, y);
            }
        }
        &mut self.children[0]
    }
    /// Inserts a fresh node among the children of the node at the end of
    /// `path`, before the child at `index`, or after it where `behind`.
    fn insert_under<V: Into<T>>(
        &mut self,
        path: &Vec<usize>,
        index: usize,
        behind: bool,
        identifier: &str,
        value: V,
    ) -> (r: &mut Node<T>)
        requires
            valid_path(*old(self), path@),
            index < subtree(*old(self), path@).children@.len(),
        ensures
            is_fresh(*r, identifier@),
            call_ensures(V::into, (value,), r.content),
            children_become(
                *old(self),
                path@,
                *final(self),
                subtree(*old(self), path@).children@.insert(
                    if behind { index + 1 } else { index as int },
                    *final(r),
                ),
            ),
    {
        proof {
            assert(path@.subrange(0, path@.len() as int) =~= path@);
        }
        let parent = self.node_at_mut(path, 0);
        let count = parent.children.len();
        let at = if behind && index < count { index + 1 } else { index };
        let fresh = Self::new_value(identifier, value);
        let ghost x = fresh;
        let ghost before = parent.children@;
        parent.children.insert(at, fresh);
        proof {
            assert forall|y: Node<T>| #[trigger] before.insert(at as int, x).update(at as int, y)
                == before.insert(at as int, y) by {
                lemma_insert_update(before, at as int, x, y);
            }
        }
        &mut parent.children[at]
    }

    /// Inserts a fresh node right after the node named `place_identifier`
    /// among its siblings, or as the last child where that is this node.
    pub fn after<V: Into<T>>(&mut self, place_identifier: &str, identifier: &str, value: V) -> (r:
        Option<&mut Node<T>>)
        ensures
            locate(*old(self), place_identifier@) is None ==> r is None && *final(self) == *old(
                self,
            ),
            locate(*old(self), place_identifier@) is Some ==> {
                &&& r is Some
                &&& is_fresh(*r.unwrap(), identifier@)
                &&& call_ensures(V::into, (value,), r.unwrap().content)
            },
            locate(*old(self), place_identifier@) matches Some((p, i, true)) ==> children_become(
                *old(self),
                p,
                *final(self),
                subtree(*old(self), p).children@.insert(i + 1, *final(r.unwrap())),
            ),
            locate(*old(self), place_identifier@) matches Some((_, _, false)) ==> children_become(
                *old(self),
                Seq::empty(),
                *final(self),
                old(self).children@.push(*final(r.unwrap())),
            ),
    {
        match self.find(place_identifier) {
            None => None,
            Some(Location::Subject) => Some(self.append(identifier, value)),
            Some(Location::Child { path, index }) => Some(
                self.insert_under(&path, index, true, identifier, value),
            ),
        }
    }

    /// Inserts a fresh node right before the node named `place_identifier`
    /// among its siblings, or as the first child where that is this node.
    pub fn before<V: Into<T>>(&mut self, place_identifier: &str, identifier: &str, value: V) -> (r:
        Option<&mut Node<T>>)
        ensures
            locate(*old(self), place_identifier@) is None ==> r is None && *final(self) == *old(
                self,
            ),
            locate(*old(self), place_identifier@) is Some ==> {
                &&& r is Some
                &&& is_fresh(*r.unwrap(), identifier@)
                &&& call_ensures(V::into, (value,), r.unwrap().content)
            },
            locate(*old(self), place_identifier@) matches Some((p, i, true)) ==> children_become(
                *old(self),
                p,
                *final(self),
                subtree(*old(self), p).children@.insert(i, *final(r.unwrap())),
            ),
            locate(*old(self), place_identifier@) matches Some((_, _, false)) ==> children_become(
                *old(self),
                Seq::empty(),
                *final(self),
                old(self).children@.insert(0, *final(r.unwrap())),
            ),
    {
        match self.find(place_identifier) {
            None => None,
            Some(Location::Subject) => Some(self.prepend(identifier, value)),
            Some(Location::Child { path, index }) => Some(
                self.insert_under(&path, index, false, identifier, value),
            ),
        }
    }

    /// Overwrites the node named `place_identifier`, with its whole subtree,
    /// by a fresh node; nothing happens where that is this node itself.
    pub fn replace<V: Into<T>>(&mut self, place_identifier: &str, identifier: &str, value: V) -> (r:
        Option<&mut Node<T>>)
        ensures
            !(locate(*old(self), place_identifier@) matches Some((_, _, true))) ==> r is None
                && *final(self) == *old(self),
            locate(*old(self), place_identifier@) matches Some((p, i, true)) ==> {
                &&& r is Some
                &&& is_fresh(*r.unwrap(), identifier@)
                &&& call_ensures(V::into, (value,), r.unwrap().content)
                &&& children_become(
                    *old(self),
                    p,
                    *final(self),
                    subtree(*old(self), p).children@.update(i, *final(r.unwrap())),
                )
            },
    {
        match self.find(place_identifier) {
            Some(Location::Child { path, index }) => {
                proof {
                    assert(path@.subrange(0, path@.len() as int) =~= path@);
                }
                let parent = self.node_at_mut(&path, 0);
                let fresh = Self::new_value(identifier, value);
                let ghost x = fresh;
                let ghost before = parent.children@;
                parent.children.set(index, fresh);
                proof {
                    assert forall|y: Node<T>| #[trigger] before.update(index as int, x).update(
                        index as int,
                        y,
                    ) == before.update(index as int, y) by {
                        assert(before.update(index as int, x).update(index as int, y)
                            =~= before.update(index as int, y));
                    }
                }
                Some(&mut parent.children[index])
            },
            _ => None,
        }
    }
}

} // verus!
