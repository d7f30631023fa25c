//! Sets of extension requirements.
//!
//! An [`ExtensionSet`] names the extensions an operation's execution adds
//! beyond what already accompanies its inputs.  A member is either a
//! concrete extension identifier or a reference to a type variable that was
//! declared with the `Extensions` kind.

use vstd::prelude::*;

verus! {

/// A unique identifier for an extension.
pub type ExtensionId = String;

/// One member of an [`ExtensionSet`]: a concrete extension identifier, or an
/// encoded reference to a type variable of `Extensions` kind.
#[derive(Debug)]
pub enum ExtItem {
    /// A concrete extension identifier.
    Ext(ExtensionId),
    /// A reference to the type variable with the given De Bruijn index.
    Var(usize),
}

/// Spec-level model of one extension-set member.
#[verifier::ext_equal]
pub enum ExtItemSpec {
    /// A concrete extension identifier.
    Ext(Seq<char>),
    /// A reference to the type variable with the given De Bruijn index.
    Var(nat),
}

impl View for ExtItem {
    type V = ExtItemSpec;

    open spec fn view(&self) -> ExtItemSpec {
        match self {
            ExtItem::Ext(id) => ExtItemSpec::Ext(id@),
            ExtItem::Var(idx) => ExtItemSpec::Var(*idx as nat),
        }
    }
}

impl Clone for ExtItem {
    fn clone(&self) -> (r: Self)
        ensures
            r@ == self@,
    {
        match self {
            ExtItem::Ext(id) => ExtItem::Ext(id.clone()),
            ExtItem::Var(idx) => ExtItem::Var(*idx),
        }
    }
}

/// If the member refers to a type variable, report its index.
pub fn as_typevar(e: &ExtItem) -> (r: Option<usize>)
    ensures
        match r {
            Some(idx) => e@ == ExtItemSpec::Var(idx as nat),
            None => e@ is Ext,
        },
{
    match e {
        ExtItem::Ext(_) => None,
        ExtItem::Var(idx) => Some(*idx),
    }
}

/// Report whether two members are the same.
pub fn ext_item_eq(a: &ExtItem, b: &ExtItem) -> (r: bool)
    ensures
        r == (a@ == b@),
{
    match (a, b) {
        (ExtItem::Ext(x), ExtItem::Ext(y)) => x.eq(y),
        (ExtItem::Var(x), ExtItem::Var(y)) => x == y,
        _ => false,
    }
}

/// The set of members named by a sequence of items.
pub open spec fn members_of(s: Seq<ExtItem>) -> Set<ExtItemSpec> {
    Set::new(|x: ExtItemSpec| exists|i: int| 0 <= i < s.len() && s[i]@ == x)
}

/// Appending an item adds exactly its member to the named set.
pub broadcast proof fn lemma_members_push(s: Seq<ExtItem>, e: ExtItem)
    ensures
        #[trigger] members_of(s.push(e)) == members_of(s).insert(e@),
{
    assert forall|x: ExtItemSpec| members_of(s.push(e)).contains(x) implies members_of(s).insert(
        e@,
    ).contains(x) by {
        let i = choose|i: int| 0 <= i < s.push(e).len() && s.push(e)[i]@ == x;
        if i < s.len() {
            assert(s[i]@ == x);
        }
    }
    assert forall|x: ExtItemSpec| members_of(s).insert(e@).contains(x) implies members_of(
        s.push(e),
    ).contains(x) by {
        if members_of(s).contains(x) {
            let i = choose|i: int| 0 <= i < s.len() && s[i]@ == x;
            assert(s.push(e)[i]@ == x);
        } else {
            assert(s.push(e)[s.len() as int]@ == x);
        }
    }
    assert(members_of(s.push(e)) =~= members_of(s).insert(e@));
}

/// Every listed item is a member of the named set.
pub broadcast proof fn lemma_members_contains(s: Seq<ExtItem>, j: int)
    requires
        0 <= j < s.len(),
    ensures
        members_of(s).contains(#[trigger] s[j]@),
{
    let x = s[j]@;
    assert(exists|i: int| 0 <= i < s.len() && s[i]@ == x) by {
        assert(0 <= j < s.len() && s[j]@ == x);
    }
}

/// The empty sequence names the empty set.
pub broadcast proof fn lemma_members_empty(s: Seq<ExtItem>)
    requires
        s.len() == 0,
    ensures
        #[trigger] members_of(s) == Set::<ExtItemSpec>::empty(),
{
    assert(members_of(s) =~= Set::<ExtItemSpec>::empty());
}

/// A set of extension requirements.  Members are [`ExtItem`]s; the set is
/// understood extensionally, so the order in which members were inserted
/// does not matter.
#[derive(Debug)]
pub struct ExtensionSet {
    /// The members, in insertion order, possibly with repeats.
    pub items: Vec<ExtItem>,
}

impl View for ExtensionSet {
    type V = Set<ExtItemSpec>;

    open spec fn view(&self) -> Set<ExtItemSpec> {
        members_of(self.items@)
    }
}

impl Clone for ExtensionSet {
    fn clone(&self) -> (r: Self)
        ensures
            r@ == self@,
    {
        broadcast use lemma_members_push, lemma_members_empty;

        let mut items: Vec<ExtItem> = Vec::new();
        let mut i: usize = 0;
        while i < self.items.len()
            invariant
                i <= self.items@.len(),
                items@.len() == i,
                forall|j: int| 0 <= j < i ==> items@[j]@ == self.items@[j]@,
            decreases self.items@.len() - i,
        {
            items.push(self.items[i].clone());
            i += 1;
        }
        let r = ExtensionSet { items };
        proof {
            assert forall|x: ExtItemSpec| r@.contains(x) implies self@.contains(x) by {
                let j = choose|j: int| 0 <= j < r.items@.len() && r.items@[j]@ == x;
                assert(self.items@[j]@ == x);
            }
            assert forall|x: ExtItemSpec| self@.contains(x) implies r@.contains(x) by {
                let j = choose|j: int| 0 <= j < self.items@.len() && self.items@[j]@ == x;
                assert(r.items@[j]@ == x);
            }
            assert(r@ =~= self@);
        }
        r
    }
}

impl ExtensionSet {
    /// Creates a new empty extension set.
    pub fn new() -> (r: Self)
        ensures
            r@ == Set::<ExtItemSpec>::empty(),
    {
        let r = ExtensionSet { items: Vec::new() };
        proof {
            lemma_members_empty(r.items@);
        }
        r
    }

    /// Creates a new extension set from some extension identifiers.
    pub fn new_from_extensions(extensions: Vec<ExtensionId>) -> (r: Self)
        ensures
            r@ == Set::new(
                |x: ExtItemSpec| exists|i: int|
                    0 <= i < extensions@.len() && x == ExtItemSpec::Ext(extensions@[i]@),
            ),
    {
        let mut items: Vec<ExtItem> = Vec::new();
        let mut i: usize = 0;
        while i < extensions.len()
            invariant
                i <= extensions@.len(),
                items@.len() == i,
                forall|j: int| 0 <= j < i ==> items@[j]@ == ExtItemSpec::Ext(extensions@[j]@),
            decreases extensions@.len() - i,
        {
            items.push(ExtItem::Ext(extensions[i].clone()));
            i += 1;
        }
        let r = ExtensionSet { items };
        proof {
            let target = Set::new(
                |x: ExtItemSpec| exists|i: int|
                    0 <= i < extensions@.len() && x == ExtItemSpec::Ext(extensions@[i]@),
            );
            assert forall|x: ExtItemSpec| r@.contains(x) implies target.contains(x) by {
                let j = choose|j: int| 0 <= j < r.items@.len() && r.items@[j]@ == x;
                assert(x == ExtItemSpec::Ext(extensions@[j]@));
            }
            assert forall|x: ExtItemSpec| target.contains(x) implies r@.contains(x) by {
                let j = choose|j: int|
                    0 <= j < extensions@.len() && x == ExtItemSpec::Ext(extensions@[j]@);
                assert(r.items@[j]@ == x);
            }
            assert(r@ =~= target);
        }
        r
    }

    /// Report whether the set contains the given member.
    pub fn contains_item(&self, x: &ExtItem) -> (r: bool)
        ensures
            r == self@.contains(x@),
    {
        let mut i: usize = 0;
        while i < self.items.len()
            invariant
                i <= self.items@.len(),
                forall|j: int| 0 <= j < i ==> self.items@[j]@ != x@,
            decreases self.items@.len() - i,
        {
            if ext_item_eq(&self.items[i], x) {
                return true;
            }
            i += 1;
        }
        false
    }

    /// Returns `true` if the set contains the given extension.
    pub fn contains(&self, extension: &ExtensionId) -> (r: bool)
        ensures
            r == self@.contains(ExtItemSpec::Ext(extension@)),
    {
        self.contains_item(&ExtItem::Ext(extension.clone()))
    }

    /// Adds a member to the set.
    pub fn insert_item(&mut self, x: ExtItem)
        ensures
            final(self)@ == old(self)@.insert(x@),
    {
        broadcast use lemma_members_push;

        let ghost x_at = x@;
        if self.contains_item(&x) {
            proof {
                assert(self@ =~= old(self)@.insert(x_at));
            }
        } else {
            self.items.push(x);
        }
    }

    /// Adds an extension to the set.
    pub fn insert(&mut self, extension: &ExtensionId)
        ensures
            final(self)@ == old(self)@.insert(ExtItemSpec::Ext(extension@)),
    {
        self.insert_item(ExtItem::Ext(extension.clone()));
    }

    /// Adds a type variable, which must have been declared with the
    /// `Extensions` kind, to this set.
    pub fn insert_type_var(&mut self, idx: usize)
        ensures
            final(self)@ == old(self)@.insert(ExtItemSpec::Var(idx as nat)),
    {
        self.insert_item(ExtItem::Var(idx));
    }

    /// Returns `true` if the set is a subset of `other`.
    pub fn is_subset(&self, other: &Self) -> (r: bool)
        ensures
            r == self@.subset_of(other@),
    {
        let mut i: usize = 0;
        while i < self.items.len()
            invariant
                i <= self.items@.len(),
                forall|j: int| 0 <= j < i ==> other@.contains(#[trigger] self.items@[j]@),
            decreases self.items@.len() - i,
        {
            if !other.contains_item(&self.items[i]) {
                proof {
                    assert(self@.contains(self.items@[i as int]@));
                }
                return false;
            }
            i += 1;
        }
        proof {
            assert forall|x: ExtItemSpec| self@.contains(x) implies other@.contains(x) by {
                let j = choose|j: int| 0 <= j < self.items@.len() && self.items@[j]@ == x;
                assert(other@.contains(self.items@[j]@));
            }
        }
        true
    }

    /// Returns `true` if the set is a superset of `other`.
    pub fn is_superset(&self, other: &Self) -> (r: bool)
        ensures
            r == other@.subset_of(self@),
    {
        other.is_subset(self)
    }

    /// Create an extension set with a single extension.
    pub fn singleton(extension: &ExtensionId) -> (r: Self)
        ensures
            r@ == Set::<ExtItemSpec>::empty().insert(ExtItemSpec::Ext(extension@)),
    {
        let mut set = Self::new();
        set.insert(extension);
        set
    }

    /// An extension set containing a single type variable, which must have
    /// been declared with the `Extensions` kind.
    pub fn type_var(idx: usize) -> (r: Self)
        ensures
            r@ == Set::<ExtItemSpec>::empty().insert(ExtItemSpec::Var(idx as nat)),
    {
        let mut set = Self::new();
        set.insert_type_var(idx);
        set
    }

    /// Returns the union of two extension sets.
    pub fn union(self, other: &Self) -> (r: Self)
        ensures
            r@ == self@.union(other@),
    {
        broadcast use lemma_members_push;

        let ghost self_items = self.items@;
        let mut result = self;
        let mut i: usize = 0;
        proof {
            lemma_members_empty(other.items@.take(0));
            assert(members_of(result.items@) =~= members_of(self_items).union(
                members_of(other.items@.take(0)),
            ));
        }
        while i < other.items.len()
            invariant
                i <= other.items@.len(),
                members_of(result.items@) == members_of(self_items).union(
                    members_of(other.items@.take(i as int)),
                ),
            decreases other.items@.len() - i,
        {
            let c = other.items[i].clone();
            let ghost pre = result.items@;
            let ghost cg = c;
            result.items.push(c);
            proof {
                lemma_members_push(pre, cg);
                lemma_members_push(other.items@.take(i as int), other.items@[i as int]);
                assert(other.items@.take(i + 1) =~= other.items@.take(i as int).push(
                    other.items@[i as int],
                ));
                assert(members_of(result.items@) =~= members_of(self_items).union(
                    members_of(other.items@.take(i + 1)),
                ));
            }
            i += 1;
        }
        proof {
            assert(other.items@.take(other.items@.len() as int) =~= other.items@);
        }
        result
    }

    /// The members of `other` which are not in `self`.
    pub fn missing_from(&self, other: &Self) -> (r: Self)
        ensures
            r@ == other@.difference(self@),
    {
        broadcast use lemma_members_push, lemma_members_empty;

        let mut items: Vec<ExtItem> = Vec::new();
        let mut i: usize = 0;
        proof {
            lemma_members_empty(other.items@.take(0));
            lemma_members_empty(items@);
            assert(members_of(items@) =~= members_of(other.items@.take(0)).difference(self@));
        }
        while i < other.items.len()
            invariant
                i <= other.items@.len(),
                members_of(items@) == members_of(other.items@.take(i as int)).difference(self@),
            decreases other.items@.len() - i,
        {
            proof {
                assert(other.items@.take(i + 1) =~= other.items@.take(i as int).push(
                    other.items@[i as int],
                ));
                lemma_members_push(other.items@.take(i as int), other.items@[i as int]);
            }
            if !self.contains_item(&other.items[i]) {
                let c = other.items[i].clone();
                let ghost pre = items@;
                let ghost cg = c;
                items.push(c);
                proof {
                    lemma_members_push(pre, cg);
                }
            }
            proof {
                assert(members_of(items@) =~= members_of(other.items@.take(i + 1)).difference(
                    self@,
                ));
            }
            i += 1;
        }
        let r = ExtensionSet { items };
        proof {
            assert(other.items@.take(other.items@.len() as int) =~= other.items@);
        }
        r
    }

    /// The contained members, in the set's internal order, possibly with
    /// repeats.  Every listed member is in the set, and every member of the
    /// set is listed.
    pub fn iter(&self) -> (r: &Vec<ExtItem>)
        ensures
            forall|j: int| 0 <= j < r@.len() ==> self@.contains(#[trigger] r@[j]@),
            forall|x: ExtItemSpec| self@.contains(x) ==> exists|j: int|
                0 <= j < r@.len() && r@[j]@ == x,
    {
        proof {
            assert forall|j: int| 0 <= j < self.items@.len() implies self@.contains(
                #[trigger] self.items@[j]@,
            ) by {
                lemma_members_contains(self.items@, j);
            }
        }
        &self.items
    }

    /// Report whether the set is empty.
    pub fn is_empty(&self) -> (r: bool)
        ensures
            r == (self@ =~= Set::<ExtItemSpec>::empty()),
    {
        let r = self.items.len() == 0;
        proof {
            if self.items@.len() == 0 {
                lemma_members_empty(self.items@);
            } else {
                assert(self@.contains(self.items@[0]@));
            }
        }
        r
    }

    /// Report whether two sets have the same members.
    pub fn set_eq(&self, other: &Self) -> (r: bool)
        ensures
            r == (self@ =~= other@),
    {
        let r = self.is_subset(other) && other.is_subset(self);
        proof {
            if self@.subset_of(other@) && other@.subset_of(self@) {
                assert(self@ =~= other@);
            }
        }
        r
    }
}

impl PartialEq for ExtensionSet {
    /// Two extension sets are equal when they have the same members,
    /// whatever order they were inserted in.
    fn eq(&self, other: &Self) -> (r: bool) {
        self.set_eq(other)
    }
}

impl vstd::std_specs::cmp::PartialEqSpecImpl for ExtensionSet {
    open spec fn obeys_eq_spec() -> bool {
        true
    }

    open spec fn eq_spec(&self, other: &Self) -> bool {
        self@ == other@
    }
}

impl Eq for ExtensionSet {

}

} // verus!
