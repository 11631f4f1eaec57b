//! Recreation of source-code objects — views, synonyms, functions,
//! procedures, packages, package bodies, types — in an order that satisfies
//! cross-object references, tolerating cycles and unresolvable objects.
//!
//! The planner scans the remaining objects in passes: an object is ready
//! when every one of its references is already processed; all ready objects
//! of a pass are processed and removed.  When a pass makes no progress (a
//! genuine cycle or an unresolved external reference) every still-remaining
//! object is force-processed once, in encounter order, so the plan is total:
//! every object appears exactly once.

use vstd::prelude::*;
use crate::oracle::errors::OracleError;
use crate::oracle::errors::spec_error_text;
use crate::text::str_eq;

verus! {

/// Kind of a source-code database object.
#[derive(Clone, Copy, Debug, PartialEq, Eq, Hash, Structural)]
pub enum DbObjectType {
    View,
    Package,
    PackageBody,
    Procedure,
    Function,
    Type,
    Synonym,
    Unsupported,
}

/// Identity of a source-code object: owning schema, name and kind.
#[derive(Clone, Debug)]
pub struct Key {
    pub owner: String,
    pub name: String,
    pub object_type: DbObjectType,
}

/// A loaded source-code object: its key, the statement that recreates it
/// and the keys it references.
#[derive(Clone, Debug)]
pub struct DbObject {
    pub owner: String,
    pub name: String,
    pub object_type: DbObjectType,
    pub sql: String,
    pub references: Vec<Key>,
}

impl Key {
    /// The key of an object.
    pub fn new(v: &DbObject) -> (k: Key)
        ensures
            k.owner@ == v.owner@,
            k.name@ == v.name@,
            k.object_type == v.object_type,
    {
        Key {
            owner: v.owner.clone(),
            name: v.name.clone(),
            object_type: v.object_type,
        }
    }
}

/// The object carries exactly this key.
pub open spec fn key_matches(o: DbObject, k: Key) -> bool {
    o.owner@ == k.owner@ && o.name@ == k.name@ && o.object_type == k.object_type
}

/// Two objects carry the same key.
pub open spec fn same_key(a: DbObject, b: DbObject) -> bool {
    a.owner@ == b.owner@ && a.name@ == b.name@ && a.object_type == b.object_type
}

/// No key appears twice in the object set.
pub open spec fn distinct_keys(objs: Seq<DbObject>) -> bool {
    forall|j1: int, j2: int| 0 <= j1 < j2 < objs.len() ==> !same_key(objs[j1], objs[j2])
}

/// The key resolves to the object at `j`.
pub open spec fn resolves_to(objs: Seq<DbObject>, k: Key, j: int) -> bool {
    0 <= j < objs.len() && key_matches(objs[j], k)
}

/// Some object of the set carries the key.
pub open spec fn in_set(objs: Seq<DbObject>, k: Key) -> bool {
    exists|j: int| resolves_to(objs, k, j)
}

/// No later object carries the same key as object `i`.
pub open spec fn is_last_key(objs: Seq<DbObject>, i: int) -> bool {
    forall|j: int| i < j < objs.len() ==> !same_key(#[trigger] objs[j], objs[i])
}

/// The objects from position `i` on, keeping of each key only its last
/// occurrence, in order of those last occurrences.
pub open spec fn spec_dedup(objs: Seq<DbObject>, i: int) -> Seq<DbObject>
    decreases objs.len() - i,
{
    if i < 0 || i >= objs.len() {
        Seq::empty()
    } else if is_last_key(objs, i) {
        seq![objs[i]] + spec_dedup(objs, i + 1)
    } else {
        spec_dedup(objs, i + 1)
    }
}

/// Everything the dedup keeps is an object of the input whose key does
/// not recur later.
proof fn lemma_dedup_members(objs: Seq<DbObject>, i: int)
    requires
        0 <= i,
    ensures
        forall|k: int|
            0 <= k < spec_dedup(objs, i).len() ==> exists|m: int|
                i <= m < objs.len() && #[trigger] spec_dedup(objs, i)[k] == objs[m] && is_last_key(
                    objs,
                    m,
                ),
    decreases objs.len() - i,
{
    if i < objs.len() {
        lemma_dedup_members(objs, i + 1);
        assert forall|k: int| 0 <= k < spec_dedup(objs, i).len() implies exists|m: int|
            i <= m < objs.len() && #[trigger] spec_dedup(objs, i)[k] == objs[m] && is_last_key(
                objs,
                m,
            ) by {
            if is_last_key(objs, i) {
                if k == 0 {
                    assert(spec_dedup(objs, i)[0] == objs[i]);
                } else {
                    assert(spec_dedup(objs, i)[k] == spec_dedup(objs, i + 1)[k - 1]);
                }
            } else {
                assert(spec_dedup(objs, i)[k] == spec_dedup(objs, i + 1)[k]);
            }
        }
    }
}

/// The dedup result carries no key twice: the data-model invariant that
/// an object key never appears twice in the replayed set.
pub proof fn lemma_dedup_distinct(objs: Seq<DbObject>, i: int)
    requires
        0 <= i,
    ensures
        distinct_keys(spec_dedup(objs, i)),
    decreases objs.len() - i,
{
    if i < objs.len() {
        lemma_dedup_distinct(objs, i + 1);
        lemma_dedup_members(objs, i + 1);
        let d = spec_dedup(objs, i);
        let rest = spec_dedup(objs, i + 1);
        assert forall|k1: int, k2: int| 0 <= k1 < k2 < d.len() implies !same_key(
            d[k1],
            d[k2],
        ) by {
            if is_last_key(objs, i) {
                if k1 == 0 {
                    assert(d[k2] == rest[k2 - 1]);
                    let m = choose|m: int|
                        i + 1 <= m < objs.len() && #[trigger] rest[k2 - 1] == objs[m]
                            && is_last_key(objs, m);
                    assert(!same_key(objs[m], objs[i]));
                } else {
                    assert(d[k1] == rest[k1 - 1]);
                    assert(d[k2] == rest[k2 - 1]);
                }
            } else {
                assert(d[k1] == rest[k1]);
                assert(d[k2] == rest[k2]);
            }
        }
    }
}

/// Every key of the input survives the dedup: only duplicates go, no key
/// is lost.
pub proof fn lemma_dedup_covers(objs: Seq<DbObject>, i: int)
    requires
        0 <= i,
    ensures
        forall|m: int|
            i <= m < objs.len() ==> exists|k: int|
                0 <= k < spec_dedup(objs, i).len() && same_key(
                    #[trigger] objs[m],
                    spec_dedup(objs, i)[k],
                ),
    decreases objs.len() - i,
{
    if i < objs.len() {
        lemma_dedup_covers(objs, i + 1);
        let d = spec_dedup(objs, i);
        let rest = spec_dedup(objs, i + 1);
        assert forall|m: int| i <= m < objs.len() implies exists|k: int|
            0 <= k < d.len() && same_key(#[trigger] objs[m], d[k]) by {
            if m == i {
                if is_last_key(objs, i) {
                    assert(d[0] == objs[i]);
                    assert(same_key(objs[i], d[0]));
                } else {
                    let j = choose|j: int| i < j < objs.len() && same_key(#[trigger] objs[j], objs[i]);
                    let k2 = choose|k2: int|
                        0 <= k2 < rest.len() && same_key(#[trigger] objs[j], rest[k2]);
                    if is_last_key(objs, i) {
                    } else {
                        assert(d == rest);
                        assert(same_key(objs[i], d[k2]));
                    }
                }
            } else {
                let k2 = choose|k2: int|
                    0 <= k2 < rest.len() && same_key(#[trigger] objs[m], rest[k2]);
                if is_last_key(objs, i) {
                    assert(d[k2 + 1] == rest[k2]);
                } else {
                    assert(d[k2] == rest[k2]);
                }
            }
        }
    }
}

/// Whether two objects carry the same key.
fn keys_alike(a: &DbObject, b: &DbObject) -> (r: bool)
    ensures
        r == same_key(*a, *b),
{
    if !str_eq(a.owner.as_str(), b.owner.as_str()) {
        return false;
    }
    if !str_eq(a.name.as_str(), b.name.as_str()) {
        return false;
    }
    a.object_type == b.object_type
}

/// Keeps of each object key only its last-loaded object, preserving the
/// order of those survivors: the loading phases overwrite earlier objects
/// with later ones of the same key, so no key ever appears twice in the
/// set handed to the replay planner.
pub fn dedup_objects(objects: Vec<DbObject>) -> (r: Vec<DbObject>)
    ensures
        r@ == spec_dedup(objects@, 0),
        distinct_keys(r@),
{
    let ghost orig = objects@;
    let n = objects.len();
    let mut keep: Vec<bool> = Vec::new();
    let mut i: usize = 0;
    while i < n
        invariant
            objects@ == orig,
            n == orig.len(),
            i <= n,
            keep@.len() == i,
            forall|i2: int| 0 <= i2 < i ==> (#[trigger] keep@[i2]) == is_last_key(orig, i2),
        decreases n - i,
    {
        let mut j = i + 1;
        let mut last = true;
        while j < n
            invariant
                objects@ == orig,
                n == orig.len(),
                i < n,
                i + 1 <= j <= n,
                last ==> forall|j2: int| i < j2 < j ==> !same_key(#[trigger] orig[j2], orig[i as int]),
                !last ==> !is_last_key(orig, i as int) && j == n,
            decreases n - j,
        {
            if keys_alike(&objects[j], &objects[i]) {
                last = false;
                proof {
                    assert(same_key(orig[j as int], orig[i as int]));
                }
                j = n;
            } else {
                j = j + 1;
            }
        }
        keep.push(last);
        i = i + 1;
    }
    let mut objs = objects;
    let mut out: Vec<DbObject> = Vec::new();
    let mut i: usize = 0;
    while i < n
        invariant
            n == orig.len(),
            i <= n,
            objs@.len() == n - i,
            forall|q: int| 0 <= q < n - i ==> (#[trigger] objs@[q]) == orig[i + q],
            keep@.len() == n,
            forall|i2: int| 0 <= i2 < n ==> (#[trigger] keep@[i2]) == is_last_key(orig, i2),
            out@ + spec_dedup(orig, i as int) == spec_dedup(orig, 0),
        decreases n - i,
    {
        let ghost out0 = out@;
        let o = objs.remove(0);
        proof {
            assert(o == orig[i as int]);
        }
        if keep[i] {
            out.push(o);
            proof {
                assert(spec_dedup(orig, i as int) =~= seq![orig[i as int]] + spec_dedup(
                    orig,
                    i + 1,
                ));
                assert(out@ + spec_dedup(orig, i + 1) =~= out0 + spec_dedup(orig, i as int));
            }
        } else {
            proof {
                assert(spec_dedup(orig, i as int) == spec_dedup(orig, i + 1));
            }
        }
        i = i + 1;
    }
    proof {
        assert(spec_dedup(orig, n as int) =~= Seq::<DbObject>::empty());
        assert(out@ + Seq::<DbObject>::empty() =~= out@);
        lemma_dedup_distinct(orig, 0);
    }
    out
}

/// The qualified name an object is created under.
pub open spec fn full_name(o: DbObject) -> Seq<char> {
    o.owner@ + "."@ + o.name@
}

/// The qualified name occurs in the list of already-existing objects.
pub open spec fn name_exists(existing: Seq<String>, fname: Seq<char>) -> bool {
    exists|e: int| 0 <= e < existing.len() && existing[e]@ == fname
}

/// What the per-object creation step does: only propagate grants because
/// the object already exists in an assume-exists schema, or execute its
/// creation statement (and then propagate grants).
#[derive(Clone, Copy, Debug, PartialEq, Eq, Structural)]
pub enum ObjectAction {
    Grant,
    Execute,
}

/// One planned step: which object, and what is done for it.
#[derive(Clone, Copy, Debug, PartialEq, Eq, Structural)]
pub struct ReplayStep {
    pub index: usize,
    pub action: ObjectAction,
}

/// The full replay plan: every object exactly once; steps before
/// `forced_from` had all their references satisfied, the tail was
/// force-processed after a stalled pass.
pub struct ReplayPlan {
    pub steps: Vec<ReplayStep>,
    pub forced_from: usize,
}

/// Step `m` (strictly earlier than `upto`) processed an object carrying
/// key `k`.
pub open spec fn ref_done(objs: Seq<DbObject>, steps: Seq<ReplayStep>, upto: int, k: Key) -> bool {
    exists|m: int|
        0 <= m < upto && #[trigger] steps[m].index < objs.len() && key_matches(
            objs[steps[m].index as int],
            k,
        )
}

/// Every reference of object `i` was processed before position `upto`.
pub open spec fn ready_at(objs: Seq<DbObject>, steps: Seq<ReplayStep>, upto: int, i: int) -> bool {
    forall|r: int|
        0 <= r < objs[i].references@.len() ==> ref_done(
            objs,
            steps,
            upto,
            #[trigger] objs[i].references@[r],
        )
}

/// Position `m` of the plan covers object `j`.
pub open spec fn covered(steps: Seq<ReplayStep>, upto: int, j: int) -> bool {
    exists|m: int| 0 <= m < upto && (#[trigger] steps[m]).index == j
}

/// The step's action is grant-only exactly when the object's qualified
/// name already exists at the destination.
pub open spec fn action_ok(
    objs: Seq<DbObject>,
    existing: Seq<String>,
    step: ReplayStep,
) -> bool {
    (step.action == ObjectAction::Grant) <==> name_exists(
        existing,
        full_name(objs[step.index as int]),
    )
}

/// What the planner guarantees of a plan: totality (every object exactly
/// once), the right action per object, reference order for every step
/// before `forced_from`, and that forcing only happened on a genuinely
/// stalled pass.
pub open spec fn valid_replay(
    objs: Seq<DbObject>,
    existing: Seq<String>,
    plan: ReplayPlan,
) -> bool {
    let steps = plan.steps@;
    &&& steps.len() == objs.len()
    &&& forall|m: int| 0 <= m < steps.len() ==> (#[trigger] steps[m]).index < objs.len()
    &&& forall|m1: int, m2: int|
        0 <= m1 < m2 < steps.len() ==> (#[trigger] steps[m1]).index != (#[trigger] steps[m2]).index
    &&& forall|i: int| 0 <= i < objs.len() ==> covered(steps, steps.len() as int, i)
    &&& forall|m: int| 0 <= m < steps.len() ==> action_ok(objs, existing, #[trigger] steps[m])
    &&& plan.forced_from <= steps.len()
    &&& forall|m: int|
        0 <= m < plan.forced_from ==> ready_at(objs, steps, m, (#[trigger] steps[m]).index as int)
    &&& plan.forced_from < steps.len() ==> forall|t: int|
        plan.forced_from <= t < steps.len() ==> !ready_at(
            objs,
            steps,
            plan.forced_from as int,
            (#[trigger] steps[t]).index as int,
        )
}

/// Object `i` is ready against the processed flags: every reference is the
/// key of some object whose flag is set.
pub open spec fn spec_ready(objs: Seq<DbObject>, flags: Seq<bool>, i: int) -> bool {
    forall|r: int|
        0 <= r < objs[i].references@.len() ==> ref_in_flags(
            objs,
            flags,
            #[trigger] objs[i].references@[r],
        )
}

/// Some processed object carries the key.
pub open spec fn ref_in_flags(objs: Seq<DbObject>, flags: Seq<bool>, k: Key) -> bool {
    exists|j: int| 0 <= j < objs.len() && #[trigger] flags[j] && key_matches(objs[j], k)
}

/// The flags mark exactly the objects the plan's first `upto` steps cover.
pub open spec fn flags_match(flags: Seq<bool>, steps: Seq<ReplayStep>, upto: int) -> bool {
    forall|j: int| 0 <= j < flags.len() ==> ((#[trigger] flags[j]) <==> covered(steps, upto, j))
}

/// Readiness against flags and readiness against the plan prefix the flags
/// mirror are the same thing.
proof fn lemma_ready_equiv(
    objs: Seq<DbObject>,
    flags: Seq<bool>,
    steps: Seq<ReplayStep>,
    upto: int,
    i: int,
)
    requires
        flags.len() == objs.len(),
        flags_match(flags, steps, upto),
        0 <= upto <= steps.len(),
        forall|m: int| 0 <= m < steps.len() ==> (#[trigger] steps[m]).index < objs.len(),
        0 <= i < objs.len(),
    ensures
        spec_ready(objs, flags, i) == ready_at(objs, steps, upto, i),
{
    if spec_ready(objs, flags, i) {
        assert forall|r: int| 0 <= r < objs[i].references@.len() implies ref_done(
            objs,
            steps,
            upto,
            #[trigger] objs[i].references@[r],
        ) by {
            let k = objs[i].references@[r];
            assert(ref_in_flags(objs, flags, k));
            let j = choose|j: int| 0 <= j < objs.len() && #[trigger] flags[j] && key_matches(
                objs[j],
                k,
            );
            assert(covered(steps, upto, j));
            let m = choose|m: int| 0 <= m < upto && (#[trigger] steps[m]).index == j;
            assert(steps[m].index < objs.len());
            assert(key_matches(objs[steps[m].index as int], k));
        }
    }
    if ready_at(objs, steps, upto, i) {
        assert forall|r: int| 0 <= r < objs[i].references@.len() implies ref_in_flags(
            objs,
            flags,
            #[trigger] objs[i].references@[r],
        ) by {
            let k = objs[i].references@[r];
            assert(ref_done(objs, steps, upto, k));
            let m = choose|m: int|
                0 <= m < upto && #[trigger] steps[m].index < objs.len() && key_matches(
                    objs[steps[m].index as int],
                    k,
                );
            let j = steps[m].index as int;
            assert(covered(steps, upto, j));
            assert(flags[j]);
        }
    }
}

/// Coverage by a plan prefix only looks at the prefix: two plans equal up
/// to `upto` cover the same objects there.
proof fn lemma_covered_prefix(a: Seq<ReplayStep>, b: Seq<ReplayStep>, upto: int, j: int)
    requires
        0 <= upto <= a.len(),
        upto <= b.len(),
        a.take(upto) == b.take(upto),
    ensures
        covered(a, upto, j) == covered(b, upto, j),
{
    if covered(a, upto, j) {
        let m = choose|m: int| 0 <= m < upto && (#[trigger] a[m]).index == j;
        assert(a.take(upto)[m] == a[m]);
        assert(b.take(upto)[m] == b[m]);
        assert(b[m].index == j);
    }
    if covered(b, upto, j) {
        let m = choose|m: int| 0 <= m < upto && (#[trigger] b[m]).index == j;
        assert(a.take(upto)[m] == a[m]);
        assert(b.take(upto)[m] == b[m]);
        assert(a[m].index == j);
    }
}

/// Flags that mirror a plan prefix keep mirroring it in any extension of
/// the plan.
proof fn lemma_flags_match_prefix(flags: Seq<bool>, a: Seq<ReplayStep>, b: Seq<ReplayStep>, upto: int)
    requires
        0 <= upto <= a.len(),
        upto <= b.len(),
        a.take(upto) == b.take(upto),
        flags_match(flags, a, upto),
    ensures
        flags_match(flags, b, upto),
{
    assert forall|j: int| 0 <= j < flags.len() implies ((#[trigger] flags[j]) <==> covered(
        b,
        upto,
        j,
    )) by {
        lemma_covered_prefix(a, b, upto, j);
    }
}

/// Whether the object carries the key.
fn matches_key(o: &DbObject, k: &Key) -> (r: bool)
    ensures
        r == key_matches(*o, *k),
{
    if !str_eq(o.owner.as_str(), k.owner.as_str()) {
        return false;
    }
    if !str_eq(o.name.as_str(), k.name.as_str()) {
        return false;
    }
    o.object_type == k.object_type
}

/// Whether every reference of object `i` is the key of an object whose
/// processed flag is set.
fn is_ready(objects: &Vec<DbObject>, flags: &Vec<bool>, i: usize) -> (r: bool)
    requires
        flags@.len() == objects@.len(),
        i < objects@.len(),
    ensures
        r == spec_ready(objects@, flags@, i as int),
{
    let refs = &objects[i].references;
    let mut r: usize = 0;
    while r < refs.len()
        invariant
            flags@.len() == objects@.len(),
            i < objects@.len(),
            refs == &objects@[i as int].references,
            r <= refs@.len(),
            forall|r2: int|
                0 <= r2 < r ==> ref_in_flags(objects@, flags@, #[trigger] refs@[r2]),
        decreases refs@.len() - r,
    {
        let k = &refs[r];
        let mut j: usize = 0;
        let mut found = false;
        while j < objects.len()
            invariant
                flags@.len() == objects@.len(),
                k == &refs@[r as int],
                j <= objects@.len(),
                found ==> ref_in_flags(objects@, flags@, *k),
                !found ==> forall|j2: int|
                    0 <= j2 < j ==> !(#[trigger] flags@[j2] && key_matches(objects@[j2], *k)),
            decreases objects@.len() - j,
        {
            if flags[j] {
                if matches_key(&objects[j], k) {
                    found = true;
                    assert(flags@[j as int] && key_matches(objects@[j as int], *k));
                    j = objects.len();
                } else {
                    j = j + 1;
                }
            } else {
                j = j + 1;
            }
        }
        if !found {
            assert(!ref_in_flags(objects@, flags@, *k));
            return false;
        }
        r = r + 1;
    }
    true
}

/// A copy of the processed flags, snapshotting a pass's starting state.
fn copy_flags(v: &Vec<bool>) -> (r: Vec<bool>)
    ensures
        r@ == v@,
{
    let mut r: Vec<bool> = Vec::new();
    let mut i: usize = 0;
    while i < v.len()
        invariant
            i <= v@.len(),
            r@ == v@.take(i as int),
        decreases v@.len() - i,
    {
        r.push(v[i]);
        assert(r@ =~= v@.take(i + 1 as int));
        i = i + 1;
    }
    proof {
        assert(v@.take(v@.len() as int) =~= v@);
    }
    r
}

/// Object `i` still waits in the remainder list.
pub open spec fn in_rem(rem: Seq<usize>, i: int) -> bool {
    exists|k: int| 0 <= k < rem.len() && (#[trigger] rem[k]) == i
}

/// What holds between passes: flags, plan and remainder partition the
/// object set, the plan's steps carry valid distinct indices with the
/// right actions, and every planned step had its references planned
/// earlier.
pub open spec fn replay_inv(
    objs: Seq<DbObject>,
    existing: Seq<String>,
    steps: Seq<ReplayStep>,
    flags: Seq<bool>,
    rem: Seq<usize>,
) -> bool {
    &&& flags.len() == objs.len()
    &&& steps.len() + rem.len() == objs.len()
    &&& forall|m: int| 0 <= m < steps.len() ==> (#[trigger] steps[m]).index < objs.len()
    &&& forall|m1: int, m2: int|
        0 <= m1 < m2 < steps.len() ==> (#[trigger] steps[m1]).index != (#[trigger] steps[m2]).index
    &&& forall|k: int| 0 <= k < rem.len() ==> (#[trigger] rem[k]) < objs.len()
    &&& forall|k1: int, k2: int|
        0 <= k1 < k2 < rem.len() ==> (#[trigger] rem[k1]) != (#[trigger] rem[k2])
    &&& forall|m: int, k: int|
        0 <= m < steps.len() && 0 <= k < rem.len() ==> (#[trigger] steps[m]).index != (
        #[trigger] rem[k])
    &&& flags_match(flags, steps, steps.len() as int)
    &&& forall|i: int|
        0 <= i < objs.len() ==> covered(steps, steps.len() as int, i) || #[trigger] in_rem(rem, i)
    &&& forall|m: int| 0 <= m < steps.len() ==> action_ok(objs, existing, #[trigger] steps[m])
    &&& forall|m: int|
        0 <= m < steps.len() ==> ready_at(objs, steps, m, (#[trigger] steps[m]).index as int)
}

/// One scan over the remaining objects: every object that is ready against
/// the pass's starting flags is planned and marked processed; the others
/// form the new remainder.  Reports whether the pass made progress; a pass
/// without progress leaves plan and flags unchanged and certifies that
/// nothing remaining was ready.
fn one_pass(
    objects: &Vec<DbObject>,
    existing: &Vec<String>,
    processed: &mut Vec<bool>,
    steps: &mut Vec<ReplayStep>,
    remaining: &Vec<usize>,
) -> (res: (Vec<usize>, bool))
    requires
        replay_inv(objects@, existing@, old(steps)@, old(processed)@, remaining@),
    ensures
        replay_inv(objects@, existing@, final(steps)@, final(processed)@, res.0@),
        final(steps)@.len() >= old(steps)@.len(),
        final(steps)@.take(old(steps)@.len() as int) == old(steps)@,
        res.1 == (final(steps)@.len() > old(steps)@.len()),
        !res.1 ==> final(steps)@ == old(steps)@ && final(processed)@ == old(processed)@ && forall|
            k: int,
        |
            0 <= k < res.0@.len() ==> !spec_ready(
                objects@,
                final(processed)@,
                (#[trigger] res.0@[k]) as int,
            ),
{
    let ghost n = objects@.len();
    let ghost steps0 = steps@;
    let ghost pass_start = steps@.len() as int;
    let before = copy_flags(processed);
    let mut new_remaining: Vec<usize> = Vec::new();
    let mut made_progress = false;
    let mut kk: usize = 0;
    proof {
        assert(steps@.take(pass_start) =~= steps0);
        assert forall|i: int|
            0 <= i < n implies covered(steps@, steps@.len() as int, i) || #[trigger] in_rem(
            new_remaining@,
            i,
        ) || exists|k4: int| kk <= k4 < remaining@.len() && (#[trigger] remaining@[k4]) == i by {
            if !covered(steps@, steps@.len() as int, i) {
                assert(in_rem(remaining@, i));
                let k = choose|k: int| 0 <= k < remaining@.len() && (#[trigger] remaining@[k]) == i;
                assert(kk <= k < remaining@.len() && remaining@[k] == i);
            }
        }
    }
    while kk < remaining.len()
        invariant
            objects@.len() == n,
            replay_inv(objects@, existing@, steps0, before@, remaining@),
            kk <= remaining@.len(),
            steps0.len() == pass_start,
            steps@.len() >= pass_start,
            steps@.take(pass_start) =~= steps0,
            processed@.len() == n,
            steps@.len() + remaining@.len() == n + (steps@.len() - pass_start),
            steps@.len() - pass_start + new_remaining@.len() == kk,
            made_progress == (steps@.len() > pass_start),
            forall|m: int| 0 <= m < steps@.len() ==> (#[trigger] steps@[m]).index < n,
            forall|m1: int, m2: int|
                0 <= m1 < m2 < steps@.len() ==> (#[trigger] steps@[m1]).index != (
                #[trigger] steps@[m2]).index,
            forall|m: int, k: int|
                0 <= m < steps@.len() && kk <= k < remaining@.len() ==> (
                #[trigger] steps@[m]).index != (#[trigger] remaining@[k]),
            forall|k3: int| 0 <= k3 < new_remaining@.len() ==> (#[trigger] new_remaining@[k3]) < n,
            forall|k3: int, k4: int|
                0 <= k3 < k4 < new_remaining@.len() ==> (#[trigger] new_remaining@[k3]) != (
                #[trigger] new_remaining@[k4]),
            forall|m: int, k3: int|
                0 <= m < steps@.len() && 0 <= k3 < new_remaining@.len() ==> (
                #[trigger] steps@[m]).index != (#[trigger] new_remaining@[k3]),
            forall|k3: int, k4: int|
                0 <= k3 < new_remaining@.len() && kk <= k4 < remaining@.len() ==> (
                #[trigger] new_remaining@[k3]) != (#[trigger] remaining@[k4]),
            flags_match(processed@, steps@, steps@.len() as int),
            forall|i: int|
                0 <= i < n ==> covered(steps@, steps@.len() as int, i) || #[trigger] in_rem(
                    new_remaining@,
                    i,
                ) || exists|k4: int|
                    kk <= k4 < remaining@.len() && (#[trigger] remaining@[k4]) == i,
            forall|m: int| 0 <= m < steps@.len() ==> action_ok(objects@, existing@, #[trigger] steps@[m]),
            forall|m: int|
                0 <= m < steps@.len() ==> ready_at(
                    objects@,
                    steps@,
                    m,
                    (#[trigger] steps@[m]).index as int,
                ),
            forall|k3: int|
                0 <= k3 < new_remaining@.len() ==> !spec_ready(
                    objects@,
                    before@,
                    (#[trigger] new_remaining@[k3]) as int,
                ),
        decreases remaining@.len() - kk,
    {
        let ghost kk0 = kk as int;
        let ghost steps_b = steps@;
        let ghost newrem_b = new_remaining@;
        let idx = remaining[kk];
        if is_ready(objects, &before, idx) {
            let a = object_action(&objects[idx], existing);
            proof {
                assert(steps0.take(pass_start) =~= steps@.take(pass_start));
                lemma_flags_match_prefix(before@, steps0, steps@, pass_start);
                lemma_ready_equiv(objects@, before@, steps@, pass_start, idx as int);
                assert(ready_at(objects@, steps@, pass_start, idx as int));
            }
            let ghost oldsteps = steps@;
            steps.push(ReplayStep { index: idx, action: a });
            processed.set(idx, true);
            made_progress = true;
            proof {
                assert(steps@.take(pass_start) =~= steps0);
                let newlen = steps@.len() as int;
                // the new step's references were all planned before the pass began
                assert forall|m: int|
                    0 <= m < steps@.len() implies ready_at(
                    objects@,
                    steps@,
                    m,
                    (#[trigger] steps@[m]).index as int,
                ) by {
                    if m < newlen - 1 {
                        assert(steps@[m] == oldsteps[m]);
                        assert(ready_at(objects@, oldsteps, m, steps@[m].index as int));
                        assert forall|r: int|
                            0 <= r < objects@[steps@[m].index as int].references@.len() implies ref_done(
                            objects@,
                            steps@,
                            m,
                            #[trigger] objects@[steps@[m].index as int].references@[r],
                        ) by {
                            let k = objects@[steps@[m].index as int].references@[r];
                            assert(ref_done(objects@, oldsteps, m, k));
                            let m2 = choose|m2: int|
                                0 <= m2 < m && #[trigger] oldsteps[m2].index < objects@.len()
                                    && key_matches(objects@[oldsteps[m2].index as int], k);
                            assert(steps@[m2] == oldsteps[m2]);
                        }
                    } else {
                        assert(steps@[m].index == idx);
                        assert(ready_at(objects@, steps@, pass_start, idx as int));
                        assert forall|r: int|
                            0 <= r < objects@[idx as int].references@.len() implies ref_done(
                            objects@,
                            steps@,
                            m,
                            #[trigger] objects@[idx as int].references@[r],
                        ) by {
                            let k = objects@[idx as int].references@[r];
                            assert(ref_done(objects@, steps@, pass_start, k));
                            let m2 = choose|m2: int|
                                0 <= m2 < pass_start && #[trigger] steps@[m2].index
                                    < objects@.len() && key_matches(
                                    objects@[steps@[m2].index as int],
                                    k,
                                );
                            assert(0 <= m2 < m);
                        }
                    }
                }
                // flags keep mirroring the plan after marking the object
                assert forall|j: int| 0 <= j < processed@.len() implies ((#[trigger] processed@[j])
                    <==> covered(steps@, steps@.len() as int, j)) by {
                    if j == idx as int {
                        assert(steps@[newlen - 1].index == idx);
                        assert(covered(steps@, newlen, j));
                    } else {
                        if processed@[j] {
                            let m2 = choose|m2: int|
                                0 <= m2 < oldsteps.len() && (#[trigger] oldsteps[m2]).index == j;
                            assert(steps@[m2] == oldsteps[m2]);
                            assert(covered(steps@, newlen, j));
                        }
                        if covered(steps@, newlen, j) {
                            let m2 = choose|m2: int|
                                0 <= m2 < newlen && (#[trigger] steps@[m2]).index == j;
                            assert(m2 < newlen - 1);
                            assert(oldsteps[m2] == steps@[m2]);
                            assert(covered(oldsteps, oldsteps.len() as int, j));
                        }
                    }
                }
            }
        } else {
            new_remaining.push(idx);
        }
        kk = kk + 1;
        proof {
            assert forall|i: int|
                0 <= i < n implies covered(steps@, steps@.len() as int, i) || #[trigger] in_rem(
                new_remaining@,
                i,
            ) || exists|k4: int| kk <= k4 < remaining@.len() && (#[trigger] remaining@[k4]) == i by {
                if covered(steps_b, steps_b.len() as int, i) {
                    let m = choose|m: int|
                        0 <= m < steps_b.len() && (#[trigger] steps_b[m]).index == i;
                    assert(steps@[m] == steps_b[m]);
                    assert(covered(steps@, steps@.len() as int, i));
                } else if in_rem(newrem_b, i) {
                    let k = choose|k: int| 0 <= k < newrem_b.len() && (#[trigger] newrem_b[k]) == i;
                    assert(new_remaining@[k] == newrem_b[k]);
                    assert(in_rem(new_remaining@, i));
                } else {
                    let k4 = choose|k4: int|
                        kk0 <= k4 < remaining@.len() && (#[trigger] remaining@[k4]) == i;
                    if k4 == kk0 {
                        if steps@.len() > steps_b.len() {
                            assert(steps@[steps@.len() - 1].index == i);
                            assert(covered(steps@, steps@.len() as int, i));
                        } else {
                            assert(new_remaining@[new_remaining@.len() - 1] == i);
                            assert(in_rem(new_remaining@, i));
                        }
                    } else {
                        assert(kk <= k4 < remaining@.len() && remaining@[k4] == i);
                    }
                }
            }
        }
    }
    proof {
        // re-establish the between-pass invariant for the new remainder
        assert forall|i: int|
            0 <= i < n implies covered(steps@, steps@.len() as int, i) || #[trigger] in_rem(
            new_remaining@,
            i,
        ) by {
            assert(covered(steps@, steps@.len() as int, i) || in_rem(new_remaining@, i) || exists|
                k4: int,
            | kk <= k4 < remaining@.len() && (#[trigger] remaining@[k4]) == i);
        }
        if steps@.len() == pass_start {
            assert(steps@ =~= steps0);
        }
    }
    (new_remaining, made_progress)
}

/// Readiness against a plan prefix only looks at the prefix: extending the
/// plan does not change it.
proof fn lemma_ready_at_prefix(
    objs: Seq<DbObject>,
    a: Seq<ReplayStep>,
    b: Seq<ReplayStep>,
    upto: int,
    i: int,
)
    requires
        0 <= upto <= a.len(),
        upto <= b.len(),
        a.take(upto) == b.take(upto),
    ensures
        ready_at(objs, a, upto, i) == ready_at(objs, b, upto, i),
{
    assert forall|m: int| 0 <= m < upto implies a[m] == b[m] by {
        assert(a.take(upto)[m] == a[m]);
        assert(b.take(upto)[m] == b[m]);
    }
    if ready_at(objs, a, upto, i) {
        assert forall|r: int| 0 <= r < objs[i].references@.len() implies ref_done(
            objs,
            b,
            upto,
            #[trigger] objs[i].references@[r],
        ) by {
            let k = objs[i].references@[r];
            let m = choose|m: int|
                0 <= m < upto && #[trigger] a[m].index < objs.len() && key_matches(
                    objs[a[m].index as int],
                    k,
                );
            assert(b[m] == a[m]);
        }
    }
    if ready_at(objs, b, upto, i) {
        assert forall|r: int| 0 <= r < objs[i].references@.len() implies ref_done(
            objs,
            a,
            upto,
            #[trigger] objs[i].references@[r],
        ) by {
            let k = objs[i].references@[r];
            let m = choose|m: int|
                0 <= m < upto && #[trigger] b[m].index < objs.len() && key_matches(
                    objs[b[m].index as int],
                    k,
                );
            assert(a[m] == b[m]);
        }
    }
}

/// Plans the whole replay: passes over the remaining objects while
/// progress is made, then force-processes what is left, in encounter
/// order.  The plan covers every object exactly once with the action the
/// destination state calls for; everything before `forced_from` had its
/// references planned strictly earlier, and forcing only happened after a
/// pass in which nothing remaining was ready.
pub fn load(objects: &Vec<DbObject>, existing: &Vec<String>) -> (plan: ReplayPlan)
    ensures
        valid_replay(objects@, existing@, plan),
{
    let n = objects.len();
    let mut processed: Vec<bool> = Vec::new();
    while processed.len() < n
        invariant
            processed@.len() <= n,
            forall|j: int| 0 <= j < processed@.len() ==> !(#[trigger] processed@[j]),
        decreases n - processed@.len(),
    {
        processed.push(false);
    }
    let mut remaining: Vec<usize> = Vec::new();
    let mut i: usize = 0;
    while i < n
        invariant
            i <= n,
            remaining@.len() == i,
            forall|k: int| 0 <= k < i ==> (#[trigger] remaining@[k]) == k,
        decreases n - i,
    {
        remaining.push(i);
        i = i + 1;
    }
    let mut steps: Vec<ReplayStep> = Vec::new();
    proof {
        assert forall|i2: int|
            0 <= i2 < n implies covered(steps@, steps@.len() as int, i2) || #[trigger] in_rem(
            remaining@,
            i2,
        ) by {
            assert(remaining@[i2] == i2);
        }
        assert(replay_inv(objects@, existing@, steps@, processed@, remaining@));
    }
    loop
        invariant_except_break
            objects@.len() == n,
            replay_inv(objects@, existing@, steps@, processed@, remaining@),
        ensures
            objects@.len() == n,
            replay_inv(objects@, existing@, steps@, processed@, remaining@),
            forall|k: int|
                0 <= k < remaining@.len() ==> !spec_ready(
                    objects@,
                    processed@,
                    (#[trigger] remaining@[k]) as int,
                ),
        decreases remaining@.len(),
    {
        let pass = one_pass(objects, existing, &mut processed, &mut steps, &remaining);
        remaining = pass.0;
        if !pass.1 {
            break;
        }
    }
    let forced_from = steps.len();
    let ghost stall_flags = processed@;
    let ghost steps_f = steps@;
    let mut kk: usize = 0;
    while kk < remaining.len()
        invariant
            objects@.len() == n,
            forced_from as int == steps_f.len(),
            steps@.len() == forced_from + kk,
            kk <= remaining@.len(),
            steps@.take(forced_from as int) =~= steps_f,
            replay_inv(objects@, existing@, steps_f, stall_flags, remaining@),
            forall|k: int|
                0 <= k < remaining@.len() ==> !spec_ready(
                    objects@,
                    stall_flags,
                    (#[trigger] remaining@[k]) as int,
                ),
            forall|t: int|
                forced_from <= t < steps@.len() ==> (#[trigger] steps@[t]).index == remaining@[t
                    - forced_from],
            forall|t: int|
                forced_from <= t < steps@.len() ==> action_ok(
                    objects@,
                    existing@,
                    #[trigger] steps@[t],
                ),
        decreases remaining@.len() - kk,
    {
        let idx = remaining[kk];
        let a = object_action(&objects[idx], existing);
        let ghost oldsteps = steps@;
        steps.push(ReplayStep { index: idx, action: a });
        proof {
            assert(steps@.take(forced_from as int) =~= steps_f);
        }
        kk = kk + 1;
    }
    let plan = ReplayPlan { steps, forced_from };
    proof {
        let s = plan.steps@;
        assert(s.len() == n);
        assert forall|m: int| 0 <= m < s.len() implies (#[trigger] s[m]).index < n by {
            if m < forced_from {
                assert(s.take(forced_from as int)[m] == s[m]);
                assert(steps_f[m].index < n);
            } else {
                assert(s[m].index == remaining@[m - forced_from]);
            }
        }
        assert forall|m1: int, m2: int| 0 <= m1 < m2 < s.len() implies (#[trigger] s[m1]).index
            != (#[trigger] s[m2]).index by {
            if m1 < forced_from {
                assert(s.take(forced_from as int)[m1] == s[m1]);
                assert(s[m1] == steps_f[m1]);
            }
            if m2 < forced_from {
                assert(s.take(forced_from as int)[m2] == s[m2]);
                assert(s[m2] == steps_f[m2]);
            }
        }
        assert forall|i2: int| 0 <= i2 < n implies covered(s, s.len() as int, i2) by {
            if covered(steps_f, steps_f.len() as int, i2) {
                let m = choose|m: int|
                    0 <= m < steps_f.len() && (#[trigger] steps_f[m]).index == i2;
                assert(s.take(forced_from as int)[m] == s[m]);
                assert(s[m].index == i2);
            } else {
                assert(in_rem(remaining@, i2));
                let k = choose|k: int|
                    0 <= k < remaining@.len() && (#[trigger] remaining@[k]) == i2;
                assert(s[forced_from + k].index == i2);
            }
        }
        assert forall|m: int| 0 <= m < s.len() implies action_ok(
            objects@,
            existing@,
            #[trigger] s[m],
        ) by {
            if m < forced_from {
                assert(s.take(forced_from as int)[m] == s[m]);
                assert(s[m] == steps_f[m]);
            }
        }
        assert forall|m: int| 0 <= m < forced_from implies ready_at(
            objects@,
            s,
            m,
            (#[trigger] s[m]).index as int,
        ) by {
            assert(s.take(forced_from as int)[m] == s[m]);
            assert(s[m] == steps_f[m]);
            assert(ready_at(objects@, steps_f, m, steps_f[m].index as int));
            assert(steps_f.take(m) =~= s.take(m)) by {
                assert forall|m2: int| 0 <= m2 < m implies steps_f[m2] == s[m2] by {
                    assert(s.take(forced_from as int)[m2] == s[m2]);
                }
            }
            lemma_ready_at_prefix(objects@, steps_f, s, m, s[m].index as int);
        }
        if (plan.forced_from as int) < s.len() {
            assert forall|t: int| plan.forced_from <= t < s.len() implies !ready_at(
                objects@,
                s,
                plan.forced_from as int,
                (#[trigger] s[t]).index as int,
            ) by {
                let idx = s[t].index as int;
                assert(idx == remaining@[t - forced_from]);
                assert(!spec_ready(objects@, stall_flags, idx));
                assert(steps_f.take(forced_from as int) =~= s.take(forced_from as int));
                lemma_flags_match_prefix(stall_flags, steps_f, s, forced_from as int);
                lemma_ready_equiv(objects@, stall_flags, s, forced_from as int, idx);
            }
        }
        assert(valid_replay(objects@, existing@, plan));
    }
    plan
}

/// Every reference of every object resolves to an object of the set.
pub open spec fn closed_set(objs: Seq<DbObject>) -> bool {
    forall|i: int, r: int|
        0 <= i < objs.len() && 0 <= r < objs[i].references@.len() ==> in_set(
            objs,
            #[trigger] objs[i].references@[r],
        )
}

/// Acyclicity witness: a rank that strictly decreases along every
/// reference edge.
pub open spec fn ranked(objs: Seq<DbObject>, rank: Seq<int>) -> bool {
    &&& rank.len() == objs.len()
    &&& forall|i: int, r: int, j: int|
        0 <= i < objs.len() && 0 <= r < objs[i].references@.len() && #[trigger] resolves_to(
            objs,
            objs[i].references@[r],
            j,
        ) ==> rank[j] < rank[i]
}

/// A position of minimal rank within a stretch of the plan.
proof fn lemma_min_rank_position(s: Seq<ReplayStep>, rank: Seq<int>, lo: int, hi: int) -> (t: int)
    requires
        0 <= lo < hi <= s.len(),
        forall|u: int| lo <= u < hi ==> (#[trigger] s[u]).index < rank.len(),
    ensures
        lo <= t < hi,
        forall|u: int|
            lo <= u < hi ==> rank[s[t].index as int] <= rank[(#[trigger] s[u]).index as int],
    decreases hi - lo,
{
    if lo + 1 == hi {
        lo
    } else {
        let t2 = lemma_min_rank_position(s, rank, lo + 1, hi);
        if rank[s[lo].index as int] <= rank[s[t2].index as int] {
            lo
        } else {
            t2
        }
    }
}

/// Totality: for every object set, cyclic or not, planning terminates and
/// the plan processes every object exactly once — each object is covered,
/// and no position repeats an object.
pub proof fn lemma_replay_total(objs: Seq<DbObject>, existing: Seq<String>, plan: ReplayPlan)
    requires
        valid_replay(objs, existing, plan),
    ensures
        plan.steps@.len() == objs.len(),
        forall|i: int| 0 <= i < objs.len() ==> covered(plan.steps@, plan.steps@.len() as int, i),
        forall|m1: int, m2: int|
            0 <= m1 < m2 < plan.steps@.len() ==> (#[trigger] plan.steps@[m1]).index != (
            #[trigger] plan.steps@[m2]).index,
{
}

/// Idempotence: against a destination that already contains every object,
/// the plan executes no statement at all — every step short-circuits to
/// grant propagation.
pub proof fn lemma_replay_idempotent(objs: Seq<DbObject>, existing: Seq<String>, plan: ReplayPlan)
    requires
        valid_replay(objs, existing, plan),
        forall|i: int| 0 <= i < objs.len() ==> name_exists(existing, full_name(#[trigger] objs[i])),
    ensures
        forall|m: int|
            0 <= m < plan.steps@.len() ==> (#[trigger] plan.steps@[m]).action == ObjectAction::Grant,
{
    assert forall|m: int| 0 <= m < plan.steps@.len() implies (#[trigger] plan.steps@[m]).action
        == ObjectAction::Grant by {
        let i = plan.steps@[m].index as int;
        assert(name_exists(existing, full_name(objs[i])));
        assert(action_ok(objs, existing, plan.steps@[m]));
    }
}

/// Dependency order: for an object set without cycles among its references
/// — witnessed by a rank that strictly decreases along every reference —
/// whose references all resolve inside the set, the plan never needs the
/// forcing fallback, and every reference of every object is processed
/// strictly before the object itself.
pub proof fn lemma_replay_ordered(
    objs: Seq<DbObject>,
    existing: Seq<String>,
    plan: ReplayPlan,
    rank: Seq<int>,
)
    requires
        valid_replay(objs, existing, plan),
        distinct_keys(objs),
        closed_set(objs),
        ranked(objs, rank),
    ensures
        plan.forced_from == plan.steps@.len(),
        forall|m: int, r: int, j: int|
            0 <= m < plan.steps@.len() && 0 <= r < objs[plan.steps@[m].index as int].references@.len()
                && #[trigger] resolves_to(
                objs,
                objs[plan.steps@[m].index as int].references@[r],
                j,
            ) ==> exists|m2: int| 0 <= m2 < m && (#[trigger] plan.steps@[m2]).index == j,
{
    let s = plan.steps@;
    let ff = plan.forced_from as int;
    if ff < s.len() {
        let t = lemma_min_rank_position(s, rank, ff, s.len() as int);
        let i = s[t].index as int;
        assert(!ready_at(objs, s, ff, i));
        let r = choose|r: int|
            0 <= r < objs[i].references@.len() && !ref_done(
                objs,
                s,
                ff,
                #[trigger] objs[i].references@[r],
            );
        let k = objs[i].references@[r];
        assert(in_set(objs, k));
        let j = choose|j: int| resolves_to(objs, k, j);
        assert(resolves_to(objs, objs[i].references@[r], j));
        assert(rank[j] < rank[i]);
        assert(covered(s, s.len() as int, j));
        let m = choose|m: int| 0 <= m < s.len() && (#[trigger] s[m]).index == j;
        if m < ff {
            assert(key_matches(objs[s[m].index as int], k));
            assert(ref_done(objs, s, ff, k));
            assert(false);
        } else {
            assert(rank[s[t].index as int] <= rank[s[m].index as int]);
            assert(false);
        }
    }
    assert forall|m: int, r: int, j: int|
        0 <= m < s.len() && 0 <= r < objs[s[m].index as int].references@.len()
            && #[trigger] resolves_to(objs, objs[s[m].index as int].references@[r], j) implies exists|
        m2: int,
    | 0 <= m2 < m && (#[trigger] s[m2]).index == j by {
        let i = s[m].index as int;
        let k = objs[i].references@[r];
        assert(ready_at(objs, s, m, i));
        assert(ref_done(objs, s, m, k));
        let m2 = choose|m2: int|
            0 <= m2 < m && #[trigger] s[m2].index < objs.len() && key_matches(
                objs[s[m2].index as int],
                k,
            );
        let j2 = s[m2].index as int;
        assert(key_matches(objs[j2], k));
        assert(key_matches(objs[j], k));
        assert(same_key(objs[j2], objs[j]));
        if j2 != j {
            if j2 < j {
                assert(!same_key(objs[j2], objs[j]));
            } else {
                assert(!same_key(objs[j], objs[j2]));
            }
            assert(false);
        }
        assert(s[m2].index == j);
    }
}

/// The creation step owed to one object: grant-only when its qualified
/// name already exists at the destination, otherwise execution of its
/// statement.
pub fn object_action(o: &DbObject, existing: &Vec<String>) -> (a: ObjectAction)
    ensures
        (a == ObjectAction::Grant) <==> name_exists(existing@, full_name(*o)),
{
    let mut fname = o.owner.clone();
    fname.append(".");
    fname.append(o.name.as_str());
    assert(fname@ == full_name(*o));
    let mut e: usize = 0;
    while e < existing.len()
        invariant
            fname@ == full_name(*o),
            e <= existing@.len(),
            forall|e2: int| 0 <= e2 < e ==> existing@[e2]@ != fname@,
        decreases existing@.len() - e,
    {
        if str_eq(existing[e].as_str(), fname.as_str()) {
            assert(existing@[e as int]@ == fname@);
            return ObjectAction::Grant;
        }
        e = e + 1;
    }
    ObjectAction::Execute
}

/// The object kind a catalog type string denotes.
pub open spec fn spec_object_type(s: Seq<char>) -> DbObjectType {
    if s == "FUNCTION"@ {
        DbObjectType::Function
    } else if s == "PACKAGE"@ {
        DbObjectType::Package
    } else if s == "PACKAGE BODY"@ {
        DbObjectType::PackageBody
    } else if s == "PROCEDURE"@ {
        DbObjectType::Procedure
    } else if s == "SYNONYM"@ {
        DbObjectType::Synonym
    } else if s == "TYPE"@ {
        DbObjectType::Type
    } else if s == "VIEW"@ {
        DbObjectType::View
    } else {
        DbObjectType::Unsupported
    }
}

/// Maps a catalog type string to the object kind; anything unknown is
/// unsupported.
pub fn get_object_type(obj_type: &str) -> (r: DbObjectType)
    ensures
        r == spec_object_type(obj_type@),
{
    if str_eq(obj_type, "FUNCTION") {
        DbObjectType::Function
    } else if str_eq(obj_type, "PACKAGE") {
        DbObjectType::Package
    } else if str_eq(obj_type, "PACKAGE BODY") {
        DbObjectType::PackageBody
    } else if str_eq(obj_type, "PROCEDURE") {
        DbObjectType::Procedure
    } else if str_eq(obj_type, "SYNONYM") {
        DbObjectType::Synonym
    } else if str_eq(obj_type, "TYPE") {
        DbObjectType::Type
    } else if str_eq(obj_type, "VIEW") {
        DbObjectType::View
    } else {
        DbObjectType::Unsupported
    }
}

/// The variant name of an object kind, as the error log spells it.
pub fn kind_name(t: DbObjectType) -> (r: &'static str)
    ensures
        t == DbObjectType::View ==> r@ == "View"@,
        t == DbObjectType::Package ==> r@ == "Package"@,
        t == DbObjectType::PackageBody ==> r@ == "PackageBody"@,
        t == DbObjectType::Procedure ==> r@ == "Procedure"@,
        t == DbObjectType::Function ==> r@ == "Function"@,
        t == DbObjectType::Type ==> r@ == "Type"@,
        t == DbObjectType::Synonym ==> r@ == "Synonym"@,
        t == DbObjectType::Unsupported ==> r@ == "Unsupported"@,
{
    match t {
        DbObjectType::View => "View",
        DbObjectType::Package => "Package",
        DbObjectType::PackageBody => "PackageBody",
        DbObjectType::Procedure => "Procedure",
        DbObjectType::Function => "Function",
        DbObjectType::Type => "Type",
        DbObjectType::Synonym => "Synonym",
        DbObjectType::Unsupported => "Unsupported",
    }
}

/// The driver error codes the replay classifies into short reasons.
pub open spec fn classified_code(code: int) -> bool {
    code == 904 || code == 942 || code == 955 || code == 980 || code == 995 || code == 1031
        || code == 2019 || code == 6575 || code == 24344
}

/// Classifies a creation failure by its driver error code into a short
/// human-readable reason; unknown codes fall back to the full error and
/// the failing statement text.  Classification never aborts the run.
pub fn ddl_error_text(err: &OracleError, sql: &str) -> (r: String)
    ensures
        err.code == 904 ==> r@ == "invalid identifier"@,
        err.code == 942 ==> r@ == "table or view does not exists"@,
        err.code == 955 ==> r@ == "name is already being used by existing object"@,
        err.code == 980 ==> r@ == "synonym translation is no longer valid"@,
        err.code == 995 ==> r@ == "missing or invalid synonym identifier"@,
        err.code == 1031 ==> r@ == "insufficient privileges"@,
        err.code == 2019 ==> r@ == "connection description for remote database not found"@,
        err.code == 6575 ==> r@ == "package or function is in an invalid state"@,
        err.code == 24344 ==> r@ == "compilation errors"@,
        !classified_code(err.code as int) ==> r@ == "with error: "@ + spec_error_text(
            err.code as int,
            err.message@,
            err.location@,
        ) + ", sql: "@ + sql@,
{
    if err.code == 904 {
        String::from_str("invalid identifier")
    } else if err.code == 942 {
        String::from_str("table or view does not exists")
    } else if err.code == 955 {
        String::from_str("name is already being used by existing object")
    } else if err.code == 980 {
        String::from_str("synonym translation is no longer valid")
    } else if err.code == 995 {
        String::from_str("missing or invalid synonym identifier")
    } else if err.code == 1031 {
        String::from_str("insufficient privileges")
    } else if err.code == 2019 {
        String::from_str("connection description for remote database not found")
    } else if err.code == 6575 {
        String::from_str("package or function is in an invalid state")
    } else if err.code == 24344 {
        String::from_str("compilation errors")
    } else {
        let mut r = String::from_str("with error: ");
        let t = err.text();
        r.append(t.as_str());
        r.append(", sql: ");
        r.append(sql);
        r
    }
}

/// The error-log line for an object whose creation failed: kind, qualified
/// name and the classified reason.
pub fn creation_error_line(o: &DbObject, err: &OracleError) -> (r: String)
    ensures
        r@ == "can not create "@ + (match o.object_type {
            DbObjectType::View => "View"@,
            DbObjectType::Package => "Package"@,
            DbObjectType::PackageBody => "PackageBody"@,
            DbObjectType::Procedure => "Procedure"@,
            DbObjectType::Function => "Function"@,
            DbObjectType::Type => "Type"@,
            DbObjectType::Synonym => "Synonym"@,
            DbObjectType::Unsupported => "Unsupported"@,
        }) + ": "@ + o.owner@ + "."@ + o.name@ + " "@ + (if classified_code(err.code as int) {
            spec_classified_text(err.code as int)
        } else {
            "with error: "@ + spec_error_text(err.code as int, err.message@, err.location@)
                + ", sql: "@ + o.sql@
        }),
{
    let mut r = String::from_str("can not create ");
    r.append(kind_name(o.object_type));
    r.append(": ");
    r.append(o.owner.as_str());
    r.append(".");
    r.append(o.name.as_str());
    r.append(" ");
    let reason = ddl_error_text(err, o.sql.as_str());
    r.append(reason.as_str());
    r
}

/// The short reason text for each classified driver code.
pub open spec fn spec_classified_text(code: int) -> Seq<char> {
    if code == 904 {
        "invalid identifier"@
    } else if code == 942 {
        "table or view does not exists"@
    } else if code == 955 {
        "name is already being used by existing object"@
    } else if code == 980 {
        "synonym translation is no longer valid"@
    } else if code == 995 {
        "missing or invalid synonym identifier"@
    } else if code == 1031 {
        "insufficient privileges"@
    } else if code == 2019 {
        "connection description for remote database not found"@
    } else if code == 6575 {
        "package or function is in an invalid state"@
    } else {
        "compilation errors"@
    }
}

/// A view object loaded from the catalog: its creation statement recreates
/// it from its stored definition.
pub fn view_object(owner: String, name: String, text: &str, references: Vec<Key>) -> (o: DbObject)
    ensures
        o.owner@ == owner@,
        o.name@ == name@,
        o.object_type == DbObjectType::View,
        o.references == references,
        o.sql@ == "create or replace view "@ + owner@ + "."@ + name@ + " as "@ + text@,
{
    let mut sql = String::from_str("create or replace view ");
    sql.append(owner.as_str());
    sql.append(".");
    sql.append(name.as_str());
    sql.append(" as ");
    sql.append(text);
    DbObject { owner, name, object_type: DbObjectType::View, sql, references }
}

/// A synonym object loaded from the catalog: its creation statement points
/// it at its target.
pub fn synonym_object(
    owner: String,
    name: String,
    table_owner: &str,
    table_name: &str,
    references: Vec<Key>,
) -> (o: DbObject)
    ensures
        o.owner@ == owner@,
        o.name@ == name@,
        o.object_type == DbObjectType::Synonym,
        o.references == references,
        o.sql@ == "create synonym "@ + owner@ + "."@ + name@ + " for "@ + table_owner@ + "."@
            + table_name@,
{
    let mut sql = String::from_str("create synonym ");
    sql.append(owner.as_str());
    sql.append(".");
    sql.append(name.as_str());
    sql.append(" for ");
    sql.append(table_owner);
    sql.append(".");
    sql.append(table_name);
    DbObject { owner, name, object_type: DbObjectType::Synonym, sql, references }
}

/// The qualified names of the already-existing source objects, one per
/// fetched (owner, name) row.
pub fn load_existing_sources(rows: &Vec<(String, String)>) -> (r: Vec<String>)
    ensures
        r@.len() == rows@.len(),
        forall|k: int|
            0 <= k < rows@.len() ==> (#[trigger] r@[k])@ == rows@[k].0@ + "."@ + rows@[k].1@,
{
    let mut r: Vec<String> = Vec::new();
    let mut k: usize = 0;
    while k < rows.len()
        invariant
            k <= rows@.len(),
            r@.len() == k,
            forall|k2: int|
                0 <= k2 < k ==> (#[trigger] r@[k2])@ == rows@[k2].0@ + "."@ + rows@[k2].1@,
        decreases rows@.len() - k,
    {
        let mut fname = rows[k].0.clone();
        fname.append(".");
        fname.append(rows[k].1.as_str());
        r.push(fname);
        k = k + 1;
    }
    r
}

/// The tracked references a dependency query's rows denote: one key per
/// (owner, name, type) row, kinds mapped as the catalog spells them.
pub fn dependency_keys(rows: &Vec<(String, String, String)>) -> (r: Vec<Key>)
    ensures
        r@.len() == rows@.len(),
        forall|k: int|
            0 <= k < rows@.len() ==> (#[trigger] r@[k]).owner@ == rows@[k].0@ && r@[k].name@
                == rows@[k].1@ && r@[k].object_type == spec_object_type(rows@[k].2@),
{
    let mut r: Vec<Key> = Vec::new();
    let mut k: usize = 0;
    while k < rows.len()
        invariant
            k <= rows@.len(),
            r@.len() == k,
            forall|k2: int|
                0 <= k2 < k ==> (#[trigger] r@[k2]).owner@ == rows@[k2].0@ && r@[k2].name@
                    == rows@[k2].1@ && r@[k2].object_type == spec_object_type(rows@[k2].2@),
        decreases rows@.len() - k,
    {
        let key = Key {
            owner: rows[k].0.clone(),
            name: rows[k].1.clone(),
            object_type: get_object_type(rows[k].2.as_str()),
        };
        r.push(key);
        k = k + 1;
    }
    r
}

/// One row of the source-line catalog: an object's owner, name, kind,
/// line number and line text, with the references loaded for its first
/// line.
pub struct SourceRow {
    pub owner: String,
    pub name: String,
    pub obj_type: String,
    pub line: u32,
    pub text: String,
    pub references: Vec<Key>,
}

/// The mathematical content of a key.
#[verifier::ext_equal]
pub struct KeyView {
    pub owner: Seq<char>,
    pub name: Seq<char>,
    pub object_type: DbObjectType,
}

/// The mathematical content of a loaded object.
#[verifier::ext_equal]
pub struct ObjView {
    pub owner: Seq<char>,
    pub name: Seq<char>,
    pub object_type: DbObjectType,
    pub sql: Seq<char>,
    pub references: Seq<KeyView>,
}

pub open spec fn key_view(k: Key) -> KeyView {
    KeyView { owner: k.owner@, name: k.name@, object_type: k.object_type }
}

pub open spec fn obj_view(o: DbObject) -> ObjView {
    ObjView {
        owner: o.owner@,
        name: o.name@,
        object_type: o.object_type,
        sql: o.sql@,
        references: o.references@.map_values(|k: Key| key_view(k)),
    }
}

/// The first position at or after `j` whose row opens an object (line
/// number one); the row count when none does.
pub open spec fn spec_next_start(rows: Seq<SourceRow>, j: int) -> int
    decreases rows.len() - j,
{
    if j < 0 || j >= rows.len() {
        rows.len() as int
    } else if rows[j].line == 1 {
        j
    } else {
        spec_next_start(rows, j + 1)
    }
}

/// The concatenated text of rows `s` up to `e`.
pub open spec fn tail_texts(rows: Seq<SourceRow>, s: int, e: int) -> Seq<char>
    decreases e - s,
{
    if s >= e {
        Seq::empty()
    } else {
        tail_texts(rows, s, e - 1) + rows[e - 1].text@
    }
}

/// An object's first source line, normalised: leading whitespace trimmed,
/// folded to upper case, and the first occurrence of the bare name
/// replaced by the qualified name.
pub open spec fn norm_first(row: SourceRow) -> Seq<char> {
    crate::text::spec_replace_first(
        crate::text::upper_seq(row.text@.skip(crate::text::leading_ws(row.text@))),
        row.name@,
        row.owner@ + "."@ + row.name@,
    )
}

/// The accumulated source text of the group of rows `[s, e)`: the
/// normalised first line followed by the remaining lines as stored.
pub open spec fn group_sql(rows: Seq<SourceRow>, s: int, e: int) -> Seq<char> {
    norm_first(rows[s]) + tail_texts(rows, s + 1, e)
}

/// The creation statement of the group of rows `[s, e)`.  A type's source
/// is cut at its first `AS` and prefixed anew; everything else is the
/// accumulated source behind a `create`.
pub open spec fn group_stmt(rows: Seq<SourceRow>, s: int, e: int, or_replace: bool) -> Seq<char> {
    let body = group_sql(rows, s, e);
    if spec_object_type(rows[s].obj_type@) == DbObjectType::Type {
        match crate::text::spec_find_from(crate::text::upper_seq(body), "AS"@, 0) {
            Some(p) => (if or_replace {
                "create or replace type "@
            } else {
                "create type "@
            }) + rows[s].owner@ + "."@ + rows[s].name@ + " "@ + body.skip(p),
            None => body,
        }
    } else {
        (if or_replace {
            "create or replace "@
        } else {
            "create "@
        }) + body
    }
}

/// The objects the source rows denote, reading groups from position `i`
/// on: one object per group whose kind is supported, the last group
/// created with `or replace`.
pub open spec fn spec_sources(rows: Seq<SourceRow>, i: int) -> Seq<ObjView>
    decreases rows.len() - i
        via spec_sources_decreases
{
    if i < 0 || i >= rows.len() {
        Seq::empty()
    } else {
        let e = spec_next_start(rows, i + 1);
        let rest = spec_sources(rows, e);
        let t = spec_object_type(rows[i].obj_type@);
        if t == DbObjectType::Unsupported {
            rest
        } else {
            seq![
                ObjView {
                    owner: rows[i].owner@,
                    name: rows[i].name@,
                    object_type: t,
                    sql: group_stmt(rows, i, e, e >= rows.len()),
                    references: rows[i].references@.map_values(|k: Key| key_view(k)),
                },
            ] + rest
        }
    }
}

/// The next object start is never before the position searched from.
proof fn lemma_next_start_ge(rows: Seq<SourceRow>, j: int)
    requires
        0 <= j <= rows.len(),
    ensures
        j <= spec_next_start(rows, j) <= rows.len(),
    decreases rows.len() - j,
{
    if j < rows.len() && rows[j].line != 1 {
        lemma_next_start_ge(rows, j + 1);
    }
}

#[via_fn]
proof fn spec_sources_decreases(rows: Seq<SourceRow>, i: int) {
    if 0 <= i < rows.len() {
        lemma_next_start_ge(rows, i + 1);
    }
}

/// A copy of a key list, content for content.
fn clone_keys(v: &Vec<Key>) -> (r: Vec<Key>)
    ensures
        r@.map_values(|k: Key| key_view(k)) == v@.map_values(|k: Key| key_view(k)),
{
    let mut r: Vec<Key> = Vec::new();
    let mut i: usize = 0;
    while i < v.len()
        invariant
            i <= v@.len(),
            r@.len() == i,
            forall|j: int| 0 <= j < i ==> key_view(#[trigger] r@[j]) == key_view(v@[j]),
        decreases v@.len() - i,
    {
        let k = Key {
            owner: v[i].owner.clone(),
            name: v[i].name.clone(),
            object_type: v[i].object_type,
        };
        r.push(k);
        i = i + 1;
    }
    proof {
        assert(r@.map_values(|k: Key| key_view(k)) =~= v@.map_values(|k: Key| key_view(k)));
    }
    r
}

/// The first position at or after `from` whose row opens an object.
pub fn next_start(rows: &Vec<SourceRow>, from: usize) -> (r: usize)
    ensures
        r as int == spec_next_start(rows@, from as int),
        r <= rows@.len(),
        from <= rows@.len() ==> from <= r,
        r < rows@.len() ==> rows@[r as int].line == 1,
{
    let mut j = from;
    while j < rows.len()
        invariant
            from <= j,
            spec_next_start(rows@, from as int) == spec_next_start(rows@, j as int),
        decreases rows@.len() - j,
    {
        if rows[j].line == 1 {
            return j;
        }
        j = j + 1;
    }
    rows.len()
}

/// The accumulated source text of one group of rows.
fn group_body(rows: &Vec<SourceRow>, s: usize, e: usize) -> (body: String)
    requires
        s < e <= rows@.len(),
    ensures
        body@ == group_sql(rows@, s as int, e as int),
{
    let trimmed = crate::text::trim_start(rows[s].text.as_str());
    let upped = crate::text::to_upper(trimmed.as_str());
    let mut target = rows[s].owner.clone();
    target.append(".");
    target.append(rows[s].name.as_str());
    let mut body = crate::text::replace_first(
        upped.as_str(),
        rows[s].name.as_str(),
        target.as_str(),
    );
    assert(body@ == norm_first(rows@[s as int]));
    let mut i = s + 1;
    while i < e
        invariant
            s + 1 <= i <= e <= rows@.len(),
            body@ == norm_first(rows@[s as int]) + tail_texts(rows@, s + 1 as int, i as int),
        decreases e - i,
    {
        body.append(rows[i].text.as_str());
        i = i + 1;
    }
    assert(body@ == group_sql(rows@, s as int, e as int));
    body
}

/// Every position the next-start search skips is no object start.
proof fn lemma_next_start_skips(rows: Seq<SourceRow>, from: int)
    requires
        0 <= from,
    ensures
        forall|j: int|
            from <= j < spec_next_start(rows, from) ==> (#[trigger] rows[j]).line != 1,
    decreases rows.len() - from,
{
    if from < rows.len() && rows[from].line != 1 {
        lemma_next_start_skips(rows, from + 1);
    }
}

/// Whether the source rows are fit for statement assembly: every group
/// whose kind is a type carries an `AS` in its accumulated source, where
/// its creation statement is cut.  Callers test this first and stop on
/// rows that fail it, instead of reaching the assembly outside its
/// contract.
pub fn sources_well_formed(rows: &Vec<SourceRow>) -> (b: bool)
    ensures
        b == (forall|i: int|
            0 <= i < rows@.len() && (#[trigger] rows@[i]).line == 1 && spec_object_type(
                rows@[i].obj_type@,
            ) == DbObjectType::Type ==> crate::text::spec_find_from(
                crate::text::upper_seq(group_sql(rows@, i, spec_next_start(rows@, i + 1))),
                "AS"@,
                0,
            ) is Some),
{
    let n = rows.len();
    let mut s = next_start(rows, 0);
    proof {
        lemma_next_start_skips(rows@, 0);
    }
    while s < n
        invariant
            n == rows@.len(),
            s <= n,
            s < n ==> rows@[s as int].line == 1,
            forall|i: int|
                0 <= i < s && (#[trigger] rows@[i]).line == 1 && spec_object_type(
                    rows@[i].obj_type@,
                ) == DbObjectType::Type ==> crate::text::spec_find_from(
                    crate::text::upper_seq(group_sql(rows@, i, spec_next_start(rows@, i + 1))),
                    "AS"@,
                    0,
                ) is Some,
        decreases n - s,
    {
        let e = next_start(rows, s + 1);
        proof {
            lemma_next_start_skips(rows@, s + 1);
        }
        let t = get_object_type(rows[s].obj_type.as_str());
        if t == DbObjectType::Type {
            let body = group_body(rows, s, e);
            let upb = crate::text::to_upper(body.as_str());
            match crate::text::find_sub(upb.as_str(), "AS") {
                Some(p) => {
                    proof {
                        crate::text::lemma_find_some(upb@, "AS"@, 0, p as int);
                    }
                },
                None => {
                    proof {
                        crate::text::lemma_find_none(upb@, "AS"@, 0);
                    }
                    return false;
                },
            }
        }
        s = e;
    }
    true
}

/// The object one group of source rows denotes; none when its kind is
/// unsupported.
pub fn source_object(rows: &Vec<SourceRow>, s: usize, e: usize, or_replace: bool) -> (o: Option<
    DbObject,
>)
    requires
        s < e <= rows@.len(),
        spec_object_type(rows@[s as int].obj_type@) == DbObjectType::Type
            ==> crate::text::spec_find_from(
            crate::text::upper_seq(group_sql(rows@, s as int, e as int)),
            "AS"@,
            0,
        ) is Some,
    ensures
        (o is None) <==> spec_object_type(rows@[s as int].obj_type@) == DbObjectType::Unsupported,
        o matches Some(ob) ==> obj_view(ob) == (ObjView {
            owner: rows@[s as int].owner@,
            name: rows@[s as int].name@,
            object_type: spec_object_type(rows@[s as int].obj_type@),
            sql: group_stmt(rows@, s as int, e as int, or_replace),
            references: rows@[s as int].references@.map_values(|k: Key| key_view(k)),
        }),
{
    let t = get_object_type(rows[s].obj_type.as_str());
    if t == DbObjectType::Unsupported {
        return None;
    }
    let body = group_body(rows, s, e);
    let sql: String;
    if t == DbObjectType::Type {
        let upb = crate::text::to_upper(body.as_str());
        match crate::text::find_sub(upb.as_str(), "AS") {
            Some(p) => {
                proof {
                    crate::text::lemma_find_some(upb@, "AS"@, 0, p as int);
                }
                let blen = body.unicode_len();
                let mut stmt = if or_replace {
                    String::from_str("create or replace type ")
                } else {
                    String::from_str("create type ")
                };
                stmt.append(rows[s].owner.as_str());
                stmt.append(".");
                stmt.append(rows[s].name.as_str());
                stmt.append(" ");
                let tail = crate::text::substring(body.as_str(), p, blen);
                stmt.append(tail.as_str());
                proof {
                    assert(body@.subrange(p as int, blen as int) =~= body@.skip(p as int));
                }
                sql = stmt;
            },
            None => {
                proof {
                    crate::text::lemma_find_none(upb@, "AS"@, 0);
                    assert(false);
                }
                sql = body;
            },
        }
    } else {
        let mut stmt = if or_replace {
            String::from_str("create or replace ")
        } else {
            String::from_str("create ")
        };
        stmt.append(body.as_str());
        sql = stmt;
    }
    let ob = DbObject {
        owner: rows[s].owner.clone(),
        name: rows[s].name.clone(),
        object_type: t,
        sql,
        references: clone_keys(&rows[s].references),
    };
    proof {
        assert(obj_view(ob) =~= ObjView {
            owner: rows@[s as int].owner@,
            name: rows@[s as int].name@,
            object_type: spec_object_type(rows@[s as int].obj_type@),
            sql: group_stmt(rows@, s as int, e as int, or_replace),
            references: rows@[s as int].references@.map_values(|k: Key| key_view(k)),
        });
    }
    Some(ob)
}

/// Assembles the source-code objects from the ordered source-line rows:
/// rows are grouped by their first lines, each supported group becomes one
/// object with its creation statement.
pub fn load_sources(rows: &Vec<SourceRow>) -> (r: Vec<DbObject>)
    requires
        forall|i: int|
            0 <= i < rows@.len() && (#[trigger] rows@[i]).line == 1 && spec_object_type(
                rows@[i].obj_type@,
            ) == DbObjectType::Type ==> crate::text::spec_find_from(
                crate::text::upper_seq(group_sql(rows@, i, spec_next_start(rows@, i + 1))),
                "AS"@,
                0,
            ) is Some,
    ensures
        r@.map_values(|o: DbObject| obj_view(o)) == spec_sources(
            rows@,
            spec_next_start(rows@, 0),
        ),
{
    let n = rows.len();
    let mut out: Vec<DbObject> = Vec::new();
    let mut s = next_start(rows, 0);
    while s < n
        invariant
            n == rows@.len(),
            s <= n,
            s < n ==> rows@[s as int].line == 1,
            spec_sources(rows@, spec_next_start(rows@, 0)) == out@.map_values(
                |o: DbObject| obj_view(o),
            ) + spec_sources(rows@, s as int),
            forall|i: int|
                0 <= i < rows@.len() && (#[trigger] rows@[i]).line == 1 && spec_object_type(
                    rows@[i].obj_type@,
                ) == DbObjectType::Type ==> crate::text::spec_find_from(
                    crate::text::upper_seq(group_sql(rows@, i, spec_next_start(rows@, i + 1))),
                    "AS"@,
                    0,
                ) is Some,
        decreases n - s,
    {
        let e = next_start(rows, s + 1);
        let ghost out0 = out@;
        match source_object(rows, s, e, e == n) {
            Some(o) => {
                out.push(o);
                proof {
                    assert(out@.map_values(|o2: DbObject| obj_view(o2)) =~= out0.map_values(
                        |o2: DbObject| obj_view(o2),
                    ).push(obj_view(o)));
                    assert(spec_sources(rows@, s as int) =~= seq![obj_view(o)] + spec_sources(
                        rows@,
                        e as int,
                    ));
                    assert(out@.map_values(|o2: DbObject| obj_view(o2)) + spec_sources(
                        rows@,
                        e as int,
                    ) =~= out0.map_values(|o2: DbObject| obj_view(o2)) + spec_sources(
                        rows@,
                        s as int,
                    ));
                }
            },
            None => {
                proof {
                    assert(spec_sources(rows@, s as int) == spec_sources(rows@, e as int));
                }
            },
        }
        s = e;
    }
    proof {
        assert(spec_sources(rows@, s as int) =~= Seq::<ObjView>::empty());
        assert(out@.map_values(|o: DbObject| obj_view(o)) + Seq::<ObjView>::empty() =~= out@
            .map_values(|o: DbObject| obj_view(o)));
    }
    out
}

} // verus!
