//! Canonical keys of nested tuple shapes and their registry.
//!
//! The key of a tuple speaks of its nesting only: it is built from the
//! keys of those fields that are tuples themselves, and a field that is
//! no tuple leaves no trace in it. Two tuples whose fields are all
//! scalars therefore share the key `()`.
use crate::json::ParameterView;
use crate::text::join;
use vstd::prelude::*;

verus! {

/// The canonical key of the tuple with these fields: the keys of its
/// tuple fields, separated by commas, in parentheses.
pub open spec fn tuple_key(fields: Seq<ParameterView>) -> Seq<char>
    decreases fields, fields.len() + 1,
{
    seq!['('] + join(child_keys(fields, fields.len() as int), ',') + seq![')']
}

/// The keys of the tuple fields among the first `n` of `fields`, in order.
pub open spec fn child_keys(fields: Seq<ParameterView>, n: int) -> Seq<Seq<char>>
    decreases fields, n,
{
    if n <= 0 || n > fields.len() {
        Seq::empty()
    } else {
        match fields[n - 1].components {
            Some(inner) => child_keys(fields, n - 1).push(tuple_key(inner)),
            None => child_keys(fields, n - 1),
        }
    }
}

/// A registered tuple shape: its key and the fields that first gave it.
pub struct Shape {
    pub key: Seq<char>,
    pub fields: Seq<ParameterView>,
}

/// Whether `registry` holds an entry under `key`.
pub open spec fn has_key(registry: Seq<Shape>, key: Seq<char>) -> bool {
    exists|i: int| 0 <= i < registry.len() && (#[trigger] registry[i]).key == key
}

/// `registry` after `fields` was offered under `key`: unchanged when the
/// key is taken, else longer by this one entry.
pub open spec fn with_shape(registry: Seq<Shape>, key: Seq<char>, fields: Seq<ParameterView>) -> Seq<
    Shape,
> {
    if has_key(registry, key) {
        registry
    } else {
        registry.push(Shape { key, fields })
    }
}

/// `registry` after the tuple with these fields was registered: first
/// each tuple among its fields, in order and each with its own tuple
/// fields before it, then the tuple itself.
pub open spec fn with_tuple(registry: Seq<Shape>, fields: Seq<ParameterView>) -> Seq<Shape>
    decreases fields, fields.len() + 1,
{
    with_shape(with_children(registry, fields, fields.len() as int), tuple_key(fields), fields)
}

/// `registry` after the tuple fields among the first `n` of `fields`
/// were registered.
pub open spec fn with_children(registry: Seq<Shape>, fields: Seq<ParameterView>, n: int) -> Seq<
    Shape,
>
    decreases fields, n,
{
    if n <= 0 || n > fields.len() {
        registry
    } else {
        match fields[n - 1].components {
            Some(inner) => with_tuple(with_children(registry, fields, n - 1), inner),
            None => with_children(registry, fields, n - 1),
        }
    }
}

/// Whether no two entries of `registry` share a key.
pub open spec fn distinct_keys(registry: Seq<Shape>) -> bool {
    forall|i: int, j: int|
        0 <= i < j < registry.len() ==> (#[trigger] registry[i]).key != (#[trigger] registry[j]).key
}

/// Whether `later` begins with `earlier`: nothing registered is ever
/// changed or removed.
pub open spec fn extends(earlier: Seq<Shape>, later: Seq<Shape>) -> bool {
    earlier.len() <= later.len() && later.take(earlier.len() as int) == earlier
}

/// A tuple without tuple fields has the key `()`, whatever its fields are.
pub proof fn lemma_flat_tuple_key(fields: Seq<ParameterView>)
    requires
        forall|i: int| 0 <= i < fields.len() ==> (#[trigger] fields[i]).components is None,
    ensures
        tuple_key(fields) == seq!['(', ')'],
{
    lemma_flat_child_keys(fields, fields.len() as int);
    assert(join(Seq::<Seq<char>>::empty(), ',') =~= Seq::<char>::empty());
    assert(tuple_key(fields) =~= seq!['(', ')']);
}

proof fn lemma_flat_child_keys(fields: Seq<ParameterView>, n: int)
    requires
        forall|i: int| 0 <= i < fields.len() ==> (#[trigger] fields[i]).components is None,
    ensures
        child_keys(fields, n) == Seq::<Seq<char>>::empty(),
    decreases n,
{
    if 0 < n <= fields.len() {
        lemma_flat_child_keys(fields, n - 1);
    }
}

/// Two tuples without tuple fields have the same key, whatever their
/// fields and however many.
pub proof fn lemma_flat_tuples_collide(a: Seq<ParameterView>, b: Seq<ParameterView>)
    requires
        forall|i: int| 0 <= i < a.len() ==> (#[trigger] a[i]).components is None,
        forall|i: int| 0 <= i < b.len() ==> (#[trigger] b[i]).components is None,
    ensures
        tuple_key(a) == tuple_key(b),
{
    lemma_flat_tuple_key(a);
    lemma_flat_tuple_key(b);
}

/// Offering a shape keeps what is registered, and keeps keys distinct.
pub proof fn lemma_with_shape(registry: Seq<Shape>, key: Seq<char>, fields: Seq<ParameterView>)
    requires
        distinct_keys(registry),
    ensures
        distinct_keys(with_shape(registry, key, fields)),
        extends(registry, with_shape(registry, key, fields)),
        has_key(with_shape(registry, key, fields), key),
{
    let after = with_shape(registry, key, fields);
    if has_key(registry, key) {
        assert(after.take(registry.len() as int) =~= registry);
    } else {
        assert(after.take(registry.len() as int) =~= registry);
        assert(after[registry.len() as int].key == key);
        assert forall|i: int, j: int| 0 <= i < j < after.len() implies (#[trigger] after[i]).key != (
        #[trigger] after[j]).key by {
            if j == registry.len() {
                assert(registry[i].key != key);
            }
        }
    }
}

/// Registering a tuple keeps what is registered, keeps keys distinct,
/// and leaves the tuple's key registered: the first writer wins.
pub proof fn lemma_with_tuple(registry: Seq<Shape>, fields: Seq<ParameterView>)
    requires
        distinct_keys(registry),
    ensures
        distinct_keys(with_tuple(registry, fields)),
        extends(registry, with_tuple(registry, fields)),
        has_key(with_tuple(registry, fields), tuple_key(fields)),
    decreases fields, fields.len() + 1,
{
    let mid = with_children(registry, fields, fields.len() as int);
    lemma_with_children(registry, fields, fields.len() as int);
    lemma_with_shape(mid, tuple_key(fields), fields);
    lemma_extends_trans(registry, mid, with_tuple(registry, fields));
}

/// Registering the tuple fields of a tuple keeps what is registered and
/// keeps keys distinct.
pub proof fn lemma_with_children(registry: Seq<Shape>, fields: Seq<ParameterView>, n: int)
    requires
        distinct_keys(registry),
    ensures
        distinct_keys(with_children(registry, fields, n)),
        extends(registry, with_children(registry, fields, n)),
    decreases fields, n,
{
    if n <= 0 || n > fields.len() {
        assert(registry.take(registry.len() as int) =~= registry);
    } else {
        lemma_with_children(registry, fields, n - 1);
        let mid = with_children(registry, fields, n - 1);
        match fields[n - 1].components {
            Some(inner) => {
                lemma_with_tuple(mid, inner);
                lemma_extends_trans(registry, mid, with_tuple(mid, inner));
            },
            None => {},
        }
    }
}

/// `extends` is transitive.
pub proof fn lemma_extends_trans(a: Seq<Shape>, b: Seq<Shape>, c: Seq<Shape>)
    requires
        extends(a, b),
        extends(b, c),
    ensures
        extends(a, c),
{
    assert(c.take(a.len() as int) =~= c.take(b.len() as int).take(a.len() as int));
}

/// Whether `registry` holds the key of the tuple with these fields and
/// the key of every tuple nested in it.
pub open spec fn covers(registry: Seq<Shape>, fields: Seq<ParameterView>) -> bool
    decreases fields, fields.len() + 1,
{
    has_key(registry, tuple_key(fields)) && covers_children(registry, fields, fields.len() as int)
}

/// Whether `registry` holds the keys of the tuples among the first `n`
/// of `fields`, and of every tuple nested in them.
pub open spec fn covers_children(registry: Seq<Shape>, fields: Seq<ParameterView>, n: int) -> bool
    decreases fields, n,
{
    if n <= 0 || n > fields.len() {
        true
    } else {
        covers_children(registry, fields, n - 1) && match fields[n - 1].components {
            Some(inner) => covers(registry, inner),
            None => true,
        }
    }
}

/// A key that is registered stays registered when the registry grows.
pub proof fn lemma_has_key_stays(earlier: Seq<Shape>, later: Seq<Shape>, key: Seq<char>)
    requires
        extends(earlier, later),
        has_key(earlier, key),
    ensures
        has_key(later, key),
{
    let i = choose|i: int| 0 <= i < earlier.len() && (#[trigger] earlier[i]).key == key;
    assert(later.take(earlier.len() as int)[i] == later[i]);
    assert(later[i].key == key);
}

/// What a registry covers, a longer registry covers too.
pub proof fn lemma_covers_stays(earlier: Seq<Shape>, later: Seq<Shape>, fields: Seq<ParameterView>)
    requires
        extends(earlier, later),
        covers(earlier, fields),
    ensures
        covers(later, fields),
    decreases fields, fields.len() + 1,
{
    lemma_has_key_stays(earlier, later, tuple_key(fields));
    lemma_covers_children_stay(earlier, later, fields, fields.len() as int);
}

/// What a registry covers of the fields of a tuple, a longer registry
/// covers too.
pub proof fn lemma_covers_children_stay(
    earlier: Seq<Shape>,
    later: Seq<Shape>,
    fields: Seq<ParameterView>,
    n: int,
)
    requires
        extends(earlier, later),
        covers_children(earlier, fields, n),
    ensures
        covers_children(later, fields, n),
    decreases fields, n,
{
    if 0 < n <= fields.len() {
        lemma_covers_children_stay(earlier, later, fields, n - 1);
        match fields[n - 1].components {
            Some(inner) => lemma_covers_stays(earlier, later, inner),
            None => {},
        }
    }
}

/// Registering a tuple that the registry covers changes nothing.
pub proof fn lemma_covered_tuple_is_kept(registry: Seq<Shape>, fields: Seq<ParameterView>)
    requires
        covers(registry, fields),
    ensures
        with_tuple(registry, fields) == registry,
    decreases fields, fields.len() + 1,
{
    lemma_covered_children_are_kept(registry, fields, fields.len() as int);
}

/// Registering tuple fields that the registry covers changes nothing.
pub proof fn lemma_covered_children_are_kept(
    registry: Seq<Shape>,
    fields: Seq<ParameterView>,
    n: int,
)
    requires
        covers_children(registry, fields, n),
    ensures
        with_children(registry, fields, n) == registry,
    decreases fields, n,
{
    if 0 < n <= fields.len() {
        lemma_covered_children_are_kept(registry, fields, n - 1);
        match fields[n - 1].components {
            Some(inner) => lemma_covered_tuple_is_kept(registry, inner),
            None => {},
        }
    }
}

/// After a tuple was registered, the registry covers it.
pub proof fn lemma_registered_tuple_is_covered(registry: Seq<Shape>, fields: Seq<ParameterView>)
    requires
        distinct_keys(registry),
    ensures
        covers(with_tuple(registry, fields), fields),
    decreases fields, fields.len() + 1,
{
    let mid = with_children(registry, fields, fields.len() as int);
    lemma_registered_children_are_covered(registry, fields, fields.len() as int);
    lemma_with_children(registry, fields, fields.len() as int);
    lemma_with_shape(mid, tuple_key(fields), fields);
    lemma_covers_children_stay(mid, with_tuple(registry, fields), fields, fields.len() as int);
}

/// After the tuple fields of a tuple were registered, the registry
/// covers them.
pub proof fn lemma_registered_children_are_covered(
    registry: Seq<Shape>,
    fields: Seq<ParameterView>,
    n: int,
)
    requires
        distinct_keys(registry),
    ensures
        covers_children(with_children(registry, fields, n), fields, n),
    decreases fields, n,
{
    if 0 < n <= fields.len() {
        let mid = with_children(registry, fields, n - 1);
        lemma_registered_children_are_covered(registry, fields, n - 1);
        lemma_with_children(registry, fields, n - 1);
        match fields[n - 1].components {
            Some(inner) => {
                lemma_registered_tuple_is_covered(mid, inner);
                lemma_with_tuple(mid, inner);
                lemma_covers_children_stay(mid, with_tuple(mid, inner), fields, n - 1);
            },
            None => {},
        }
    }
}

/// Registering a tuple a second time is a no-op: the first writer wins
/// and nothing is overwritten.
pub proof fn lemma_register_twice(registry: Seq<Shape>, fields: Seq<ParameterView>)
    requires
        distinct_keys(registry),
    ensures
        with_tuple(with_tuple(registry, fields), fields) == with_tuple(registry, fields),
{
    lemma_registered_tuple_is_covered(registry, fields);
    lemma_covered_tuple_is_kept(with_tuple(registry, fields), fields);
}

} // verus!
