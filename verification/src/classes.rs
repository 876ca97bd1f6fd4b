//! Host objects, and finding methods along chains of superclasses.

use std::collections::HashMap;
use vstd::prelude::*;

use crate::types::{id, nil, Class, IMP, SEL};

verus! {

broadcast use vstd::std_specs::hash::group_hash_axioms;

/// What the host knows of a class (or metaclass) that it can send messages to.
pub struct ClassHostObject {
    /// The class that methods are inherited from, or nil.
    pub superclass: Class,
    pub is_metaclass: bool,
    /// The class's own methods, by the address of the selector.
    pub methods: HashMap<u32, IMP>,
    pub name: String,
}

/// What the host keeps for an object in guest memory.
pub enum HostObject {
    /// A class.
    Class(ClassHostObject),
    /// A class that the app refers to and the host does not implement.
    UnimplementedClass { name: String, is_metaclass: bool },
    /// A class whose methods all behave as if they were sent to nil.
    FakeClass { name: String, is_metaclass: bool },
    /// Any object that is no class.
    Instance,
}

/// Host objects by guest address.
pub type Objects = Map<u32, HostObject>;

impl ClassHostObject {
    /// A class without methods.
    pub fn new(name: &str, superclass: Class, is_metaclass: bool) -> (class: ClassHostObject)
        ensures
            class.name@ == name@,
            class.superclass == superclass,
            class.is_metaclass == is_metaclass,
            class.methods@ == Map::<u32, IMP>::empty(),
    {
        ClassHostObject { superclass, is_metaclass, methods: HashMap::new(), name: name.to_owned() }
    }

    /// Adds a method to the class's own, in place of any it has for the same
    /// selector.
    pub fn add_method(&mut self, selector: SEL, imp: IMP)
        ensures
            final(self).methods@ == old(self).methods@.insert(selector.bits, imp),
            final(self).name == old(self).name,
            final(self).superclass == old(self).superclass,
            final(self).is_metaclass == old(self).is_metaclass,
    {
        self.methods.insert(selector.bits, imp);
    }
}

/// The superclass of a class, which may be nil; none for what is no class.
pub open spec fn superclass_of(objects: Objects, class: Class) -> Option<Class> {
    if class != nil() && objects.contains_key(class.bits) {
        match objects[class.bits] {
            HostObject::Class(object) => Some(object.superclass),
            _ => None,
        }
    } else {
        None
    }
}

/// Whether at most `steps` steps from class to superclass lead to something
/// that has no superclass.
pub open spec fn ends_within(objects: Objects, class: Class, steps: nat) -> bool
    decreases steps,
{
    match superclass_of(objects, class) {
        None => true,
        Some(superclass) => steps > 0 && ends_within(objects, superclass, (steps - 1) as nat),
    }
}

/// Whether the chain of superclasses of `class` ends.
pub open spec fn chain_ends(objects: Objects, class: Class) -> bool {
    exists|steps: nat| ends_within(objects, class, steps)
}

/// Whether no class is its own superclass, directly or through others.
pub open spec fn acyclic(objects: Objects) -> bool {
    forall|class: Class| #[trigger] chain_ends(objects, class)
}

/// The number of steps from a class to the end of its chain of superclasses.
pub open spec fn height(objects: Objects, class: Class) -> nat {
    choose|steps: nat|
        ends_within(objects, class, steps) && forall|less: nat|
            less < steps ==> !ends_within(objects, class, less)
}

/// `class`, its superclass, the superclass of that, and so on: the class that
/// is `n` steps up from `class`, if the chain reaches so far.
pub open spec fn ancestor(objects: Objects, class: Class, n: nat) -> Option<Class>
    decreases n,
{
    if n == 0 {
        Some(class)
    } else {
        match superclass_of(objects, class) {
            Some(superclass) => ancestor(objects, superclass, (n - 1) as nat),
            None => None,
        }
    }
}

/// A chain that ends within some steps ends within more.
proof fn lemma_ends_within_more(objects: Objects, class: Class, steps: nat, more: nat)
    requires
        ends_within(objects, class, steps),
        steps <= more,
    ensures
        ends_within(objects, class, more),
    decreases steps,
{
    if let Some(superclass) = superclass_of(objects, class) {
        lemma_ends_within_more(objects, superclass, (steps - 1) as nat, (more - 1) as nat);
    }
}

/// There is a least number of steps to the end of a chain.
proof fn lemma_least_steps(objects: Objects, class: Class, steps: nat) -> (least: nat)
    requires
        ends_within(objects, class, steps),
    ensures
        ends_within(objects, class, least),
        forall|less: nat| less < least ==> !ends_within(objects, class, less),
    decreases steps,
{
    if steps > 0 && ends_within(objects, class, (steps - 1) as nat) {
        lemma_least_steps(objects, class, (steps - 1) as nat)
    } else {
        assert forall|less: nat| less < steps implies !ends_within(objects, class, less) by {
            if ends_within(objects, class, less) {
                lemma_ends_within_more(objects, class, less, (steps - 1) as nat);
            }
        }
        steps
    }
}

/// The height of a class is the least number of steps to the end of its chain.
proof fn lemma_height(objects: Objects, class: Class)
    requires
        acyclic(objects),
    ensures
        ends_within(objects, class, height(objects, class)),
        forall|less: nat| less < height(objects, class) ==> !ends_within(objects, class, less),
{
    assert(chain_ends(objects, class));
    let steps = choose|steps: nat| ends_within(objects, class, steps);
    let least = lemma_least_steps(objects, class, steps);
}

/// A superclass is nearer to the end of the chain.
pub proof fn lemma_superclass_lower(objects: Objects, class: Class)
    requires
        acyclic(objects),
        superclass_of(objects, class) is Some,
    ensures
        height(objects, superclass_of(objects, class)->0) < height(objects, class),
{
    let superclass = superclass_of(objects, class)->0;
    lemma_height(objects, class);
    lemma_height(objects, superclass);
    let steps = height(objects, class);
    assert(ends_within(objects, superclass, (steps - 1) as nat));
}

/// The method for `selector` that a class has itself.
pub open spec fn own_method(objects: Objects, class: Class, selector: SEL) -> Option<IMP> {
    if class != nil() && objects.contains_key(class.bits) {
        match objects[class.bits] {
            HostObject::Class(object) if object.methods@.contains_key(selector.bits) => Some(
                object.methods@[selector.bits],
            ),
            _ => None,
        }
    } else {
        None
    }
}

/// Where the search for a method ends.
#[derive(Clone, Copy)]
pub enum Lookup {
    /// A class on the chain has the method.
    Method { class: Class, imp: IMP },
    /// The chain ended in nil.
    NotFound,
    /// There is no host object for a class on the chain.
    NoHostObject { class: Class },
    /// A class on the chain is not implemented.
    Unimplemented { class: Class },
    /// A class on the chain is faked.
    Faked { class: Class },
    /// Something on the chain is no class.
    NoClass { class: Class },
}

/// The method for `selector` of the nearest class that has one, from `class`
/// on up the chain of superclasses, or what ends the search before that.
pub open spec fn lookup(objects: Objects, class: Class, selector: SEL) -> Lookup
    decreases height(objects, class),
    when acyclic(objects)
{
    if class == nil() {
        Lookup::NotFound
    } else if !objects.contains_key(class.bits) {
        Lookup::NoHostObject { class }
    } else {
        match objects[class.bits] {
            HostObject::Class(object) => {
                if object.methods@.contains_key(selector.bits) {
                    Lookup::Method { class, imp: object.methods@[selector.bits] }
                } else {
                    proof {
                        lemma_superclass_lower(objects, class);
                    }
                    lookup(objects, object.superclass, selector)
                }
            },
            HostObject::UnimplementedClass { .. } => Lookup::Unimplemented { class },
            HostObject::FakeClass { .. } => Lookup::Faked { class },
            HostObject::Instance => Lookup::NoClass { class },
        }
    }
}

/// The method that a message is dispatched to: for an ordinary message the
/// search begins at `class`, for a message to super at its superclass.
pub open spec fn lookup_from(
    objects: Objects,
    class: Class,
    selector: SEL,
    to_super: bool,
) -> Lookup {
    match superclass_of(objects, class) {
        Some(superclass) if to_super => lookup(objects, superclass, selector),
        _ => lookup(objects, class, selector),
    }
}

/// Whether the search for a method ends at one.
pub open spec fn has_method(objects: Objects, class: Class, selector: SEL) -> bool {
    lookup(objects, class, selector) is Method
}

/// The name of a class of any kind; empty for what is no class.
pub open spec fn class_name(objects: Objects, class: Class) -> Seq<char> {
    if objects.contains_key(class.bits) {
        match objects[class.bits] {
            HostObject::Class(object) => object.name@,
            HostObject::UnimplementedClass { name, .. } => name@,
            HostObject::FakeClass { name, .. } => name@,
            HostObject::Instance => Seq::empty(),
        }
    } else {
        Seq::empty()
    }
}

/// Whether a host object may be put at an address: always, but for a class
/// that would become its own superclass.
pub open spec fn admissible(objects: Objects, at: id, object: HostObject) -> bool {
    acyclic(objects.insert(at.bits, object))
}

/// The host objects of all the objects in guest memory. The superclass
/// relation among them has no cycles.
pub struct HostObjects {
    objects: HashMap<u32, HostObject>,
}

impl View for HostObjects {
    type V = Objects;

    closed spec fn view(&self) -> Objects {
        self.objects@
    }
}

/// Putting a class below a chain that does not lead back to it makes no cycle.
proof fn lemma_insert_keeps_end(
    objects: Objects,
    at: id,
    object: HostObject,
    class: Class,
    steps: nat,
    below: nat,
)
    requires
        ends_within(objects, class, steps),
        superclass_of(objects.insert(at.bits, object), at) matches Some(s) ==> ends_within(
            objects.insert(at.bits, object),
            s,
            below,
        ),
    ensures
        ends_within(objects.insert(at.bits, object), class, steps + below + 1),
    decreases steps,
{
    let after = objects.insert(at.bits, object);
    if class == at {
        if let Some(s) = superclass_of(after, at) {
            lemma_ends_within_more(after, s, below, steps + below);
        }
    } else {
        if let Some(superclass) = superclass_of(objects, class) {
            lemma_insert_keeps_end(objects, at, object, superclass, (steps - 1) as nat, below);
        }
    }
}

/// A chain that does not pass `at` is the same after something is put there.
proof fn lemma_insert_elsewhere(
    objects: Objects,
    at: id,
    object: HostObject,
    class: Class,
    steps: nat,
)
    requires
        ends_within(objects, class, steps),
        forall|n: nat| ancestor(objects, class, n) != Some(at),
    ensures
        ends_within(objects.insert(at.bits, object), class, steps),
    decreases steps,
{
    assert(ancestor(objects, class, 0) == Some(class));
    if let Some(superclass) = superclass_of(objects, class) {
        assert forall|n: nat| ancestor(objects, superclass, n) != Some(at) by {
            assert(ancestor(objects, class, n + 1) == ancestor(objects, superclass, n));
        }
        lemma_insert_elsewhere(objects, at, object, superclass, (steps - 1) as nat);
    }
}

/// From `class`, `n` steps lead to `at`, and from `at` one step leads to
/// `class`: no number of steps is enough.
proof fn lemma_cycle_never_ends(objects: Objects, class: Class, at: id, n: nat, steps: nat)
    requires
        ancestor(objects, class, n) == Some(at),
        exists|top: Class, back: nat|
            superclass_of(objects, at) == Some(top) && #[trigger] ancestor(objects, top, back)
                == Some(at),
    ensures
        !ends_within(objects, class, steps),
    decreases steps,
{
    if steps == 0 {
        assert(n > 0 ==> superclass_of(objects, class) is Some);
    } else if n == 0 {
        let (top, back) = choose|top: Class, back: nat|
            superclass_of(objects, at) == Some(top) && #[trigger] ancestor(objects, top, back)
                == Some(at);
        lemma_cycle_never_ends(objects, top, at, back, (steps - 1) as nat);
    } else {
        let superclass = superclass_of(objects, class)->0;
        lemma_cycle_never_ends(objects, superclass, at, (n - 1) as nat, (steps - 1) as nat);
    }
}

/// The first `n` steps of a chain that has not come to `at` yet are the same
/// after something is put there.
proof fn lemma_ancestor_elsewhere(
    objects: Objects,
    at: id,
    object: HostObject,
    class: Class,
    n: nat,
)
    requires
        ancestor(objects, class, n) is Some,
        forall|m: nat| m < n ==> ancestor(objects, class, m) != Some(at),
    ensures
        ancestor(objects.insert(at.bits, object), class, n) == ancestor(objects, class, n),
    decreases n,
{
    if n > 0 {
        assert(ancestor(objects, class, 0) == Some(class));
        let superclass = superclass_of(objects, class)->0;
        assert forall|m: nat| m < n - 1 implies ancestor(objects, superclass, m) != Some(at) by {
            assert(ancestor(objects, class, m + 1) == ancestor(objects, superclass, m));
        }
        lemma_ancestor_elsewhere(objects, at, object, superclass, (n - 1) as nat);
    }
}

proof fn lemma_ancestor_step(objects: Objects, class: Class, n: nat)
    requires
        ancestor(objects, class, n) is Some,
    ensures
        ancestor(objects, class, n + 1) == superclass_of(objects, ancestor(objects, class, n)->0),
    decreases n,
{
    if n == 0 {
        assert(ancestor(objects, class, 1) == match superclass_of(objects, class) {
            Some(superclass) => ancestor(objects, superclass, 0),
            None => None,
        });
    } else {
        let superclass = superclass_of(objects, class)->0;
        lemma_ancestor_step(objects, superclass, (n - 1) as nat);
        assert(ancestor(objects, class, n + 1) == ancestor(objects, superclass, n));
    }
}

/// What is put at nil, what is no class, and a class whose superclasses do not
/// lead back to it make no cycle.
proof fn lemma_insert_admissible(objects: Objects, at: id, object: HostObject)
    requires
        acyclic(objects),
        superclass_of(objects.insert(at.bits, object), at) matches Some(top) ==> forall|n: nat|
            ancestor(objects, top, n) != Some(at),
    ensures
        admissible(objects, at, object),
{
    let after = objects.insert(at.bits, object);
    let below: nat = match superclass_of(after, at) {
        Some(top) => height(objects, top),
        None => 0,
    };
    if let Some(top) = superclass_of(after, at) {
        lemma_height(objects, top);
        lemma_insert_elsewhere(objects, at, object, top, below);
    }
    assert forall|class: Class| #[trigger] chain_ends(after, class) by {
        lemma_height(objects, class);
        lemma_insert_keeps_end(objects, at, object, class, height(objects, class), below);
    }
}

/// A class that is among the superclasses of its own superclass makes a cycle.
proof fn lemma_insert_cycle(objects: Objects, at: id, object: HostObject)
    requires
        superclass_of(objects.insert(at.bits, object), at) matches Some(top) && exists|n: nat|
            ancestor(objects, top, n) == Some(at),
    ensures
        !admissible(objects, at, object),
{
    let after = objects.insert(at.bits, object);
    let top = superclass_of(after, at)->0;
    let n = choose|n: nat| ancestor(objects, top, n) == Some(at);
    let first = lemma_first_ancestor(objects, top, at, n);
    lemma_ancestor_elsewhere(objects, at, object, top, first);
    assert(ancestor(after, at, 0) == Some(at));
    assert forall|steps: nat| !ends_within(after, at, steps) by {
        lemma_cycle_never_ends(after, at, at, 0, steps);
    }
    assert(!chain_ends(after, at));
}

proof fn lemma_first_ancestor(objects: Objects, class: Class, at: id, n: nat) -> (first: nat)
    requires
        ancestor(objects, class, n) == Some(at),
    ensures
        ancestor(objects, class, first) == Some(at),
        forall|m: nat| m < first ==> ancestor(objects, class, m) != Some(at),
    decreases n,
{
    if exists|m: nat| m < n && ancestor(objects, class, m) == Some(at) {
        let m = choose|m: nat| m < n && ancestor(objects, class, m) == Some(at);
        lemma_first_ancestor(objects, class, at, m)
    } else {
        n
    }
}

proof fn lemma_no_ancestor_beyond(objects: Objects, class: Class, n: nat)
    requires
        ancestor(objects, class, n) is Some,
        superclass_of(objects, ancestor(objects, class, n)->0) is None,
    ensures
        forall|m: nat| m > n ==> ancestor(objects, class, m) is None,
    decreases n,
{
    if n > 0 {
        let superclass = superclass_of(objects, class)->0;
        lemma_no_ancestor_beyond(objects, superclass, (n - 1) as nat);
        assert forall|m: nat| m > n implies ancestor(objects, class, m) is None by {
            assert(ancestor(objects, class, m) == ancestor(objects, superclass, (m - 1) as nat));
        }
    }
}

proof fn lemma_empty_acyclic()
    ensures
        acyclic(Map::<u32, HostObject>::empty()),
{
    let objects = Map::<u32, HostObject>::empty();
    assert forall|class: Class| #[trigger] chain_ends(objects, class) by {
        assert(ends_within(objects, class, 0));
    }
}

impl HostObjects {
    #[verifier::type_invariant]
    pub open spec fn superclasses_end(self) -> bool {
        acyclic(self@)
    }

    /// No host objects.
    pub fn new() -> (all: HostObjects)
        ensures
            all@ == Map::<u32, HostObject>::empty(),
    {
        proof {
            lemma_empty_acyclic();
        }
        HostObjects { objects: HashMap::new() }
    }

    /// The host object of an object.
    pub fn get(&self, object: id) -> (found: Option<&HostObject>)
        ensures
            found == (if self@.contains_key(object.bits) {
                Some(&self@[object.bits])
            } else {
                None
            }),
    {
        self.objects.get(&object.bits)
    }

    /// Whether `at` is `class` or one of the superclasses up its chain.
    fn leads_to(&self, class: Class, at: id) -> (found: bool)
        ensures
            found == exists|n: nat| ancestor(self@, class, n) == Some(at),
    {
        proof {
            use_type_invariant(self);
        }
        let mut current: Class = class;
        let ghost mut n: nat = 0;
        loop
            invariant
                acyclic(self@),
                ancestor(self@, class, n) == Some(current),
                forall|m: nat| m < n ==> ancestor(self@, class, m) != Some(at),
            decreases height(self@, current),
        {
            if current == at {
                return true;
            }
            proof {
                lemma_ancestor_step(self@, class, n);
                if superclass_of(self@, current) is Some {
                    lemma_superclass_lower(self@, current);
                } else {
                    lemma_no_ancestor_beyond(self@, class, n);
                }
            }
            if current == nil() {
                return false;
            }
            match self.objects.get(&current.bits) {
                Some(HostObject::Class(object)) => {
                    current = object.superclass;
                    proof {
                        n = n + 1;
                    }
                },
                _ => {
                    return false;
                },
            }
        }
    }

    /// Puts a host object at an address, in place of any that is there, unless
    /// it is a class that would become its own superclass.
    pub fn insert(&mut self, at: id, object: HostObject) -> (done: bool)
        ensures
            done == admissible(old(self)@, at, object),
            final(self)@ == (if done {
                old(self)@.insert(at.bits, object)
            } else {
                old(self)@
            }),
    {
        proof {
            use_type_invariant(&*self);
        }
        if let HostObject::Class(new) = &object {
            if at != nil() && self.leads_to(new.superclass, at) {
                proof {
                    lemma_insert_cycle(self@, at, object);
                }
                return false;
            }
        }
        proof {
            lemma_insert_admissible(self@, at, object);
        }
        let mut objects: HashMap<u32, HostObject> = HashMap::new();
        proof {
            lemma_empty_acyclic();
        }
        std::mem::swap(&mut self.objects, &mut objects);
        objects.insert(at.bits, object);
        self.objects = objects;
        true
    }

    /// Finds the method that a message is dispatched to.
    pub fn lookup_from(&self, class: Class, selector: SEL, to_super: bool) -> (result: Lookup)
        ensures
            result == lookup_from(self@, class, selector, to_super),
    {
        proof {
            use_type_invariant(self);
        }
        if to_super && class != nil() {
            if let Some(HostObject::Class(object)) = self.objects.get(&class.bits) {
                return self.lookup(object.superclass, selector);
            }
        }
        self.lookup(class, selector)
    }

    /// Finds the method of the nearest class that has one, from `class` on.
    pub fn lookup(&self, class: Class, selector: SEL) -> (result: Lookup)
        ensures
            result == lookup(self@, class, selector),
    {
        proof {
            use_type_invariant(self);
        }
        let mut current: Class = class;
        loop
            invariant
                acyclic(self@),
                lookup(self@, current, selector) == lookup(self@, class, selector),
            decreases height(self@, current),
        {
            if current == nil() {
                return Lookup::NotFound;
            }
            proof {
                if superclass_of(self@, current) is Some {
                    lemma_superclass_lower(self@, current);
                }
            }
            match self.objects.get(&current.bits) {
                None => {
                    return Lookup::NoHostObject { class: current };
                },
                Some(HostObject::Class(object)) => {
                    match object.methods.get(&selector.bits) {
                        Some(imp) => {
                            return Lookup::Method { class: current, imp: *imp };
                        },
                        None => {
                            current = object.superclass;
                        },
                    }
                },
                Some(HostObject::UnimplementedClass { .. }) => {
                    return Lookup::Unimplemented { class: current };
                },
                Some(HostObject::FakeClass { .. }) => {
                    return Lookup::Faked { class: current };
                },
                Some(HostObject::Instance) => {
                    return Lookup::NoClass { class: current };
                },
            }
        }
    }

    /// Whether a class has a method for a selector, its own or inherited.
    pub fn class_has_method(&self, class: Class, selector: SEL) -> (has: bool)
        ensures
            has == has_method(self@, class, selector),
    {
        match self.lookup(class, selector) {
            Lookup::Method { .. } => true,
            _ => false,
        }
    }

    /// The name of a class; empty for what is no class.
    pub fn get_class_name(&self, class: Class) -> (name: &str)
        ensures
            name@ == class_name(self@, class),
    {
        proof {
            reveal_strlit("");
            assert(""@ =~= Seq::<char>::empty());
        }
        match self.objects.get(&class.bits) {
            Some(HostObject::Class(object)) => object.name.as_str(),
            Some(HostObject::UnimplementedClass { name, .. }) => name.as_str(),
            Some(HostObject::FakeClass { name, .. }) => name.as_str(),
            _ => "",
        }
    }
}

/// The method that a lookup finds is that of the nearest class that has one:
/// it is the class's own, the class is `class` or up the chain from it, and no
/// class before it on the chain has a method for the selector.
pub proof fn law_nearest_method(objects: Objects, class: Class, selector: SEL) -> (n: nat)
    requires
        acyclic(objects),
        has_method(objects, class, selector),
    ensures
        lookup(objects, class, selector) matches Lookup::Method { class: owner, imp }
            && ancestor(objects, class, n) == Some(owner) && own_method(objects, owner, selector)
            == Some(imp),
        forall|m: nat|
            #![trigger ancestor(objects, class, m)]
            m < n ==> ancestor(objects, class, m) is Some && own_method(
                objects,
                ancestor(objects, class, m)->0,
                selector,
            ) is None,
    decreases height(objects, class),
{
    if own_method(objects, class, selector) is Some {
        assert(ancestor(objects, class, 0) == Some(class));
        0
    } else {
        lemma_superclass_lower(objects, class);
        let superclass = superclass_of(objects, class)->0;
        let above = law_nearest_method(objects, superclass, selector);
        assert forall|m: nat|
            #![trigger ancestor(objects, class, m)]
            m < above + 1 implies ancestor(objects, class, m) is Some && own_method(
            objects,
            ancestor(objects, class, m)->0,
            selector,
        ) is None by {
            if m > 0 {
                assert(ancestor(objects, class, m) == ancestor(
                    objects,
                    superclass,
                    (m - 1) as nat,
                ));
            }
        }
        above + 1
    }
}

/// A message to super is never dispatched to a method of the class that it is
/// sent from.
pub proof fn law_super_skips_own_methods(objects: Objects, class: Class, selector: SEL)
    requires
        acyclic(objects),
        superclass_of(objects, class) is Some,
    ensures
        lookup_from(objects, class, selector, true) matches Lookup::Method { class: owner, .. }
            ==> owner != class,
{
    let superclass = superclass_of(objects, class)->0;
    lemma_superclass_lower(objects, class);
    lemma_lookup_at_most(objects, superclass, selector);
}

proof fn lemma_lookup_at_most(objects: Objects, class: Class, selector: SEL)
    requires
        acyclic(objects),
    ensures
        lookup(objects, class, selector) matches Lookup::Method { class: owner, .. } ==> height(
            objects,
            owner,
        ) <= height(objects, class),
    decreases height(objects, class),
{
    if let Some(superclass) = superclass_of(objects, class) {
        lemma_superclass_lower(objects, class);
        lemma_lookup_at_most(objects, superclass, selector);
    }
}

/// Whether `class` is an ordinary class without a method for `selector`, whose
/// superclass is `superclass`.
pub open spec fn passes_on(
    objects: Objects,
    class: Class,
    superclass: Class,
    selector: SEL,
) -> bool {
    &&& class.bits != 0
    &&& objects.contains_key(class.bits)
    &&& objects[class.bits] matches HostObject::Class(object) && object.superclass == superclass
        && !object.methods@.contains_key(selector.bits)
}

/// Whether `chain` goes up from class to superclass, past ordinary classes that have
/// no method for `selector`. Nothing is said of the last class of the chain.
pub open spec fn climbs(objects: Objects, chain: Seq<Class>, selector: SEL) -> bool {
    &&& chain.len() > 0
    &&& forall|i: int, j: int|
        0 <= i && j == i + 1 && j < chain.len() ==> passes_on(
            objects,
            #[trigger] chain[i],
            #[trigger] chain[j],
            selector,
        )
}

/// Whether a search that comes to `end` ends there with `found`: with the method, if
/// `end` is an ordinary class that has one, and else, if it is no ordinary class,
/// with what it is.
pub open spec fn ends_with(objects: Objects, end: Class, selector: SEL, found: Lookup) -> bool {
    if end.bits == 0 {
        found == Lookup::NotFound
    } else if !objects.contains_key(end.bits) {
        found == (Lookup::NoHostObject { class: end })
    } else {
        match objects[end.bits] {
            HostObject::Class(object) => object.methods@.contains_key(selector.bits) ==> found == (
            Lookup::Method { class: end, imp: object.methods@[selector.bits] }),
            HostObject::UnimplementedClass { .. } => found == (Lookup::Unimplemented {
                class: end,
            }),
            HostObject::FakeClass { .. } => found == (Lookup::Faked { class: end }),
            HostObject::Instance => found == (Lookup::NoClass { class: end }),
        }
    }
}

/// An ordinary message is dispatched to the method of the nearest class that has
/// one, however far up the chain, and the search ends before that only at what is
/// no ordinary class.
pub proof fn law_search_goes_up_the_chain(objects: Objects, chain: Seq<Class>, selector: SEL)
    requires
        acyclic(objects),
        climbs(objects, chain, selector),
    ensures
        ends_with(objects, chain.last(), selector, lookup_from(objects, chain[0], selector, false)),
        ends_with(objects, chain.last(), selector, lookup(objects, chain[0], selector)),
    decreases chain.len(),
{
    if chain.len() > 1 {
        let rest = chain.drop_first();
        assert(passes_on(objects, chain[0], chain[1], selector));
        assert forall|i: int, j: int| 0 <= i && j == i + 1 && j < rest.len() implies passes_on(
            objects,
            #[trigger] rest[i],
            #[trigger] rest[j],
            selector,
        ) by {
            assert(rest[i] == chain[i + 1] && rest[j] == chain[j + 1]);
        }
        law_search_goes_up_the_chain(objects, rest, selector);
        assert(rest[0] == chain[1]);
    }
}

/// A message to super is dispatched to what an ordinary search from the superclass
/// of the sending class on ends with: the nearest method, however far up the chain.
pub proof fn law_super_search_goes_up_the_chain(
    objects: Objects,
    class: Class,
    sender: ClassHostObject,
    chain: Seq<Class>,
    selector: SEL,
)
    requires
        acyclic(objects),
        class.bits != 0,
        objects.contains_key(class.bits),
        objects[class.bits] == HostObject::Class(sender),
        sender.superclass == chain[0],
        climbs(objects, chain, selector),
    ensures
        ends_with(objects, chain.last(), selector, lookup_from(objects, class, selector, true)),
{
    law_search_goes_up_the_chain(objects, chain, selector);
}

/// A message to super from what is no ordinary class ends there.
pub proof fn law_super_search_from_no_class(objects: Objects, class: Class, selector: SEL)
    requires
        acyclic(objects),
        class.bits == 0 || !objects.contains_key(class.bits)
            || !(objects[class.bits] is Class),
    ensures
        ends_with(objects, class, selector, lookup_from(objects, class, selector, true)),
{
}

/// Every search goes up some chain, to a class that has the method or to what is no
/// ordinary class.
pub proof fn law_every_search_ends(objects: Objects, class: Class, selector: SEL) -> (chain: Seq<
    Class,
>)
    requires
        acyclic(objects),
    ensures
        chain[0] == class,
        climbs(objects, chain, selector),
        ({
            let end = chain.last();
            end.bits != 0 && objects.contains_key(end.bits) ==> (
            objects[end.bits] matches HostObject::Class(object)
                ==> object.methods@.contains_key(selector.bits))
        }),
    decreases height(objects, class),
{
    if superclass_of(objects, class) is Some && own_method(objects, class, selector) is None {
        let superclass = superclass_of(objects, class)->0;
        lemma_superclass_lower(objects, class);
        let rest = law_every_search_ends(objects, superclass, selector);
        let chain = seq![class] + rest;
        assert forall|i: int, j: int| 0 <= i && j == i + 1 && j < chain.len() implies passes_on(
            objects,
            #[trigger] chain[i],
            #[trigger] chain[j],
            selector,
        ) by {
            if i > 0 {
                assert(chain[i] == rest[i - 1] && chain[j] == rest[j - 1]);
            } else {
                assert(chain[j] == rest[0]);
            }
        }
        assert(chain.last() == rest.last());
        chain
    } else {
        seq![class]
    }
}

/// A class of any kind has the name that it was made with, and nothing else has one.
pub proof fn law_classes_have_their_names(objects: Objects, class: Class)
    ensures
        !objects.contains_key(class.bits) ==> class_name(objects, class).len() == 0,
        objects.contains_key(class.bits) ==> match objects[class.bits] {
            HostObject::Class(object) => class_name(objects, class) == object.name@,
            HostObject::UnimplementedClass { name, .. } => class_name(objects, class) == name@,
            HostObject::FakeClass { name, .. } => class_name(objects, class) == name@,
            HostObject::Instance => class_name(objects, class).len() == 0,
        },
{
}

/// Whether `class` is an ordinary class whose superclass is `superclass`.
pub open spec fn is_below(objects: Objects, class: Class, superclass: Class) -> bool {
    &&& class.bits != 0
    &&& objects.contains_key(class.bits)
    &&& objects[class.bits] matches HostObject::Class(object) && object.superclass == superclass
}

/// Whether `chain` goes up from class to superclass.
pub open spec fn goes_up(objects: Objects, chain: Seq<Class>) -> bool {
    &&& chain.len() > 0
    &&& forall|i: int, j: int|
        0 <= i && j == i + 1 && j < chain.len() ==> is_below(
            objects,
            #[trigger] chain[i],
            #[trigger] chain[j],
        )
}

/// The last class of a chain is as many steps up as the chain is long.
proof fn lemma_chain_reaches(objects: Objects, chain: Seq<Class>)
    requires
        goes_up(objects, chain),
    ensures
        ancestor(objects, chain[0], (chain.len() - 1) as nat) == Some(chain.last()),
    decreases chain.len(),
{
    if chain.len() > 1 {
        let rest = chain.drop_first();
        assert(is_below(objects, chain[0], chain[1]));
        assert forall|i: int, j: int| 0 <= i && j == i + 1 && j < rest.len() implies is_below(
            objects,
            #[trigger] rest[i],
            #[trigger] rest[j],
        ) by {
            assert(rest[i] == chain[i + 1] && rest[j] == chain[j + 1]);
        }
        lemma_chain_reaches(objects, rest);
        assert(rest[0] == chain[1]);
    }
}

/// What is `n` steps up is reached by a chain.
proof fn lemma_ancestor_chain(objects: Objects, class: Class, n: nat) -> (chain: Seq<Class>)
    requires
        ancestor(objects, class, n) is Some,
    ensures
        goes_up(objects, chain),
        chain[0] == class,
        chain.last() == ancestor(objects, class, n)->0,
    decreases n,
{
    if n == 0 {
        seq![class]
    } else {
        let superclass = superclass_of(objects, class)->0;
        let rest = lemma_ancestor_chain(objects, superclass, (n - 1) as nat);
        let chain = seq![class] + rest;
        assert forall|i: int, j: int| 0 <= i && j == i + 1 && j < chain.len() implies is_below(
            objects,
            #[trigger] chain[i],
            #[trigger] chain[j],
        ) by {
            if i > 0 {
                assert(chain[i] == rest[i - 1] && chain[j] == rest[j - 1]);
            } else {
                assert(chain[j] == rest[0]);
            }
        }
        assert(chain.last() == rest.last());
        chain
    }
}

/// What may be put at an address: everything but a class from whose superclass a
/// chain leads back to it.
pub proof fn law_only_cycles_are_refused(objects: Objects, at: id, object: HostObject)
    requires
        acyclic(objects),
    ensures
        !admissible(objects, at, object) <==> at.bits != 0 && (
        object matches HostObject::Class(class) && exists|chain: Seq<Class>| #[trigger]
            goes_up(objects, chain) && chain[0] == class.superclass && chain.last() == at),
{
    let after = objects.insert(at.bits, object);
    if let Some(top) = superclass_of(after, at) {
        if exists|n: nat| ancestor(objects, top, n) == Some(at) {
            let n = choose|n: nat| ancestor(objects, top, n) == Some(at);
            let chain = lemma_ancestor_chain(objects, top, n);
            assert(goes_up(objects, chain));
            lemma_insert_cycle(objects, at, object);
        } else {
            lemma_insert_admissible(objects, at, object);
            assert forall|chain: Seq<Class>| #[trigger]
                goes_up(objects, chain) && chain[0] == top implies chain.last() != at by {
                lemma_chain_reaches(objects, chain);
            }
        }
    } else {
        lemma_insert_admissible(objects, at, object);
    }
}

} // verus!
