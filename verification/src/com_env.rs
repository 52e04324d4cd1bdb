//! An explicit model of the foreign side of the automation boundary.
//!
//! The real collaborators — the object activation machinery and the objects
//! reached through dynamic dispatch — live outside this layer and are only
//! ever touched through narrow capability interfaces.  [`ComEnv`] models that
//! whole foreign side as one explicit value: a string-handle heap, a table of
//! reference-counted objects, and a class registry.  Each object carries a
//! script — which capabilities it supports, how names resolve, what each
//! member invocation does — so a test double with any desired behaviour is
//! just data, and every operation of the layer is a verified function of the
//! environment.
//!
//! Object pointers are the indices of the table shifted by one, so 0 is the
//! null pointer and every non-null pointer is stable for the life of the
//! environment.

use vstd::prelude::*;

verus! {

use crate::bstr::BstrHeap;
use crate::bstr::SysAllocError;
use crate::bstr::SysAllocStringLen;
use crate::bstr::SysFreeString;
use crate::bstr::Utf16Src;
use crate::bstr::alloc_post;
use crate::com_interface::IID_ICLASSFACTORY;
use crate::com_interface::IID_IUNKNOWN;
use crate::hresult::CLASS_E_NOAGGREGATION;
use crate::hresult::DISP_E_BADINDEX;
use crate::hresult::DISP_E_MEMBERNOTFOUND;
use crate::hresult::DISP_E_UNKNOWNNAME;
use crate::hresult::E_FAIL;
use crate::hresult::E_NOINTERFACE;
use crate::hresult::REGDB_E_CLASSNOTREG;
use crate::hresult::E_OUTOFMEMORY;
use crate::hresult::S_OK;
use crate::smart_variant::AutoVariant;
use crate::smart_variant::RawVariant;
use crate::smart_variant::SmartVariant;
use crate::smart_variant::VARIANT_TRUE_BITS;
use crate::smart_variant::VT_ARRAY;
use crate::smart_variant::VT_BOOL;
use crate::smart_variant::VT_BSTR;
use crate::smart_variant::VT_BYREF;
use crate::smart_variant::VT_DATE;
use crate::smart_variant::VT_DISPATCH;
use crate::smart_variant::VT_EMPTY;
use crate::smart_variant::VT_ERROR;
use crate::smart_variant::VT_I1;
use crate::smart_variant::VT_I2;
use crate::smart_variant::VT_I4;
use crate::smart_variant::VT_INT;
use crate::smart_variant::VT_R4;
use crate::smart_variant::VT_R8;
use crate::smart_variant::VT_UI1;
use crate::smart_variant::VT_UI2;
use crate::smart_variant::VT_UI4;
use crate::smart_variant::VT_UINT;
use crate::smart_variant::VT_UNKNOWN;
use crate::smart_variant::VT_VARIANT;
use crate::smart_variant::raw_empty;
use crate::smart_variant::raw_encodes;
use crate::smart_variant::raw_value_view;
use crate::smart_variant::recognized_vt;
use crate::smart_variant::spec_raw_empty;
use crate::utf16::encode16;
use crate::utf16::lemma_encode16_injective;
use crate::utf16::string_to_utf16;
use crate::utf16::utf16_to_string_lossy;

/// One name an object resolves, with the member id it resolves to.
pub struct NameEntry {
    /// The member's name.
    pub name: String,
    /// The member id the name resolves to.
    pub dispid: i32,
}

/// What one scripted member invocation does.
pub enum DispOutcome {
    /// The invocation succeeds and returns this value.
    Retv(SmartVariant),
    /// The invocation fails with a status code, a human-readable description,
    /// and the index of the implicated argument.
    Failure {
        /// The failure status code; always a failure value.
        hresult: i32,
        /// The description the object reports.
        description: String,
        /// The index of the argument the object implicates.
        arg_err: u32,
    },
}

/// One scripted member: the id and invocation kind it answers, and the
/// outcome it produces.
pub struct DispHandler {
    /// The member id.
    pub dispid: i32,
    /// The invocation kind answered, as a dispatch flag.
    pub flags: u16,
    /// What the invocation does.
    pub outcome: DispOutcome,
}

/// The behaviour of one modeled foreign object.
pub struct ObjectScript {
    /// Interface identifiers the object supports.
    pub iids: Vec<u128>,
    /// Identifiers for which the object reports success but hands back a null
    /// pointer — a corrupt answer the layer must turn into a pointer error.
    pub qi_null: Vec<u128>,
    /// The names the object resolves.
    pub names: Vec<NameEntry>,
    /// The members the object answers.
    pub handlers: Vec<DispHandler>,
    /// How many type descriptions the object offers.
    pub type_info_count: u32,
    /// The object holding the type description, or 0 for none.
    pub type_info: usize,
    /// When set, the object acts as a class factory for this class identifier.
    pub factory_clsid: Option<u128>,
}

impl ObjectScript {
    /// A script that supports nothing: no capabilities, no names, no members.
    pub fn empty() -> (r: ObjectScript)
        ensures
            r.iids@ == Seq::<u128>::empty(),
            r.qi_null@ == Seq::<u128>::empty(),
            r.names@ == Seq::<NameEntry>::empty(),
            r.handlers@ == Seq::<DispHandler>::empty(),
            r.type_info_count == 0,
            r.type_info == 0,
            r.factory_clsid is None,
    {
        ObjectScript {
            iids: Vec::new(),
            qi_null: Vec::new(),
            names: Vec::new(),
            handlers: Vec::new(),
            type_info_count: 0,
            type_info: 0,
            factory_clsid: None,
        }
    }
}

/// One modeled foreign object: its current reference count and its behaviour.
pub struct ComObject {
    /// The object's own reference count.
    pub ref_count: u32,
    /// The object's scripted behaviour.
    pub script: ObjectScript,
}

/// One registered class.
pub struct ClassEntry {
    /// The class identifier.
    pub clsid: u128,
    /// The script each created instance starts from.
    pub script: ObjectScript,
}

/// One recorded invocation, exactly as the foreign side received it.
pub struct InvokeRecord {
    /// The invoked object.
    pub target: usize,
    /// The member id.
    pub dispid: i32,
    /// The locale passed through.
    pub lcid: u32,
    /// The invocation kind flags.
    pub flags: u16,
    /// The raw arguments in the order the foreign side received them.
    pub args: Vec<crate::smart_variant::RawVariant>,
}

/// A scripted outcome is sound for a table of `n` objects: a failure carries a
/// failure code, and a returned object reference points into the table.
pub open spec fn outcome_ok(o: DispOutcome, n: int) -> bool {
    match o {
        DispOutcome::Retv(v) => match v {
            SmartVariant::IDispatch(p) => p == 0 || 1 <= p <= n,
            SmartVariant::IUnknown(p) => p == 0 || 1 <= p <= n,
            _ => true,
        },
        DispOutcome::Failure { hresult, description, arg_err } => hresult < 0,
    }
}

/// A script is sound for a table of `n` objects.
pub open spec fn script_valid(s: ObjectScript, n: int) -> bool {
    &&& s.type_info == 0 || 1 <= s.type_info <= n
    &&& forall|i: int|
        0 <= i < s.handlers@.len() ==> outcome_ok((#[trigger] s.handlers@[i]).outcome, n)
}

/// The modeled foreign side: string heap, object table, class registry, the
/// server lock count, and the log of invocations received.  The fields are
/// public so that tests can build and inspect doubles directly; every
/// operation requires the invariant [`ComEnv::wf`], which the operations
/// themselves always preserve.
pub struct ComEnv {
    /// The string-handle allocator.
    pub heap: BstrHeap,
    /// The objects, in creation order; pointer `p` names `objects[p - 1]`.
    pub objects: Vec<ComObject>,
    /// The registered classes, one entry per class identifier.
    pub classes: Vec<ClassEntry>,
    /// How often the server has been locked.
    pub locks: u32,
    /// Every invocation received, oldest first.
    pub calls: Vec<InvokeRecord>,
}

impl ComEnv {
    /// The pointer names an object of the table.
    pub open spec fn is_object(self, p: usize) -> bool {
        1 <= p <= self.objects@.len()
    }

    /// How many objects the table holds.
    pub open spec fn num_objects(self) -> nat {
        self.objects@.len()
    }

    /// The reference count of an object.
    pub open spec fn ref_count(self, p: usize) -> u32
        recommends
            self.is_object(p),
    {
        self.objects@[p - 1].ref_count
    }

    /// The script of an object.
    pub open spec fn script_of(self, p: usize) -> ObjectScript
        recommends
            self.is_object(p),
    {
        self.objects@[p - 1].script
    }

    /// A class is registered under the identifier.
    pub closed spec fn class_registered(self, clsid: u128) -> bool {
        exists|i: int| 0 <= i < self.classes@.len() && (#[trigger] self.classes@[i]).clsid == clsid
    }

    /// The index of the class registered under the identifier.
    spec fn class_idx(self, clsid: u128) -> int {
        choose|i: int| 0 <= i < self.classes@.len() && (#[trigger] self.classes@[i]).clsid == clsid
    }

    /// The script of the class registered under the identifier.
    pub closed spec fn class_script(self, clsid: u128) -> ObjectScript
        recommends
            self.class_registered(clsid),
    {
        self.classes@[self.class_idx(clsid)].script
    }

    /// The server lock count.
    pub open spec fn locks(self) -> u32 {
        self.locks
    }

    /// The invocations received so far.
    pub open spec fn calls(self) -> Seq<InvokeRecord> {
        self.calls@
    }

    /// The environment's invariant: a well-formed heap, every script sound for
    /// the current table, and at most one registration per class identifier.
    pub closed spec fn wf(self) -> bool {
        &&& self.heap.wf()
        &&& forall|i: int|
            0 <= i < self.objects@.len() ==> script_valid(
                (#[trigger] self.objects@[i]).script,
                self.objects@.len() as int,
            )
        &&& forall|i: int|
            0 <= i < self.classes@.len() ==> script_valid(
                (#[trigger] self.classes@[i]).script,
                self.objects@.len() as int,
            )
        &&& forall|i: int, j: int|
            0 <= i < j < self.classes@.len() ==> (#[trigger] self.classes@[i]).clsid != (
            #[trigger] self.classes@[j]).clsid
    }

    /// A fresh environment: a heap of the given byte capacity, no objects, no
    /// classes, no locks, no calls.
    pub fn new(heap_capacity: usize) -> (r: ComEnv)
        ensures
            r.wf(),
            r.heap.wf(),
            r.heap.used() == 0,
            r.heap.capacity() == heap_capacity as nat,
            r.heap.live_handles() == 0,
            forall|h: usize| !r.heap.is_live(h),
            r.num_objects() == 0,
            forall|p: usize| !r.is_object(p),
            forall|c: u128| !r.class_registered(c),
            r.locks() == 0,
            r.calls() == Seq::<InvokeRecord>::empty(),
    {
        ComEnv {
            heap: BstrHeap::new(heap_capacity),
            objects: Vec::new(),
            classes: Vec::new(),
            locks: 0,
            calls: Vec::new(),
        }
    }

    /// Whether nothing but the heap changed, and the heap only as the caller
    /// states separately.
    pub open spec fn same_objects(self, other: ComEnv) -> bool {
        &&& other.num_objects() == self.num_objects()
        &&& forall|q: usize|
            self.is_object(q) ==> other.ref_count(q) == self.ref_count(q) && other.script_of(q)
                == self.script_of(q)
    }

    /// Whether the object table is unchanged except for one object's count.
    pub open spec fn same_objects_except(self, other: ComEnv, p: usize) -> bool {
        &&& other.num_objects() == self.num_objects()
        &&& forall|q: usize|
            self.is_object(q) && q != p ==> other.ref_count(q) == self.ref_count(q)
        &&& forall|q: usize| self.is_object(q) ==> other.script_of(q) == self.script_of(q)
    }

    /// Whether the class registry is unchanged.
    pub open spec fn same_classes(self, other: ComEnv) -> bool {
        forall|c: u128|
            (#[trigger] other.class_registered(c)) == self.class_registered(c) && (
            self.class_registered(c) ==> other.class_script(c) == self.class_script(c))
    }

    /// No class has two registrations: the registered index is unique.
    proof fn lemma_class_idx(self, i: int)
        requires
            self.wf(),
            0 <= i < self.classes@.len(),
        ensures
            self.class_registered(self.classes@[i].clsid),
            self.class_idx(self.classes@[i].clsid) == i,
    {
        let c = self.classes@[i].clsid;
        assert(self.class_registered(c));
        let j = self.class_idx(c);
        if j < i {
            assert(self.classes@[j].clsid != self.classes@[i].clsid);
        } else if i < j {
            assert(self.classes@[i].clsid != self.classes@[j].clsid);
        }
    }

    /// Finds the registered class for an identifier.
    fn find_class(&self, clsid: u128) -> (r: Option<usize>)
        requires
            self.wf(),
        ensures
            match r {
                Some(i) => {
                    &&& i < self.classes@.len()
                    &&& self.classes@[i as int].clsid == clsid
                    &&& self.class_registered(clsid)
                    &&& self.class_script(clsid) == self.classes@[i as int].script
                },
                None => !self.class_registered(clsid),
            },
    {
        let n = self.classes.len();
        let mut i: usize = 0;
        while i < n
            invariant
                i <= n,
                n == self.classes@.len(),
                self.wf(),
                forall|k: int| 0 <= k < i ==> (#[trigger] self.classes@[k]).clsid != clsid,
            decreases n - i,
        {
            if self.classes[i].clsid == clsid {
                proof {
                    self.lemma_class_idx(i as int);
                }
                return Some(i);
            }
            i = i + 1;
        }
        proof {
            if self.class_registered(clsid) {
                let w = self.class_idx(clsid);
                assert(self.classes@[w].clsid != clsid);
            }
        }
        return None;
    }

    /// The reference count an object currently holds; 0 for anything that is
    /// not an object of the table.
    pub fn ref_count_of(&self, p: usize) -> (r: u32)
        ensures
            self.is_object(p) ==> r == self.ref_count(p),
            !self.is_object(p) ==> r == 0,
    {
        if 1 <= p && p <= self.objects.len() {
            self.objects[p - 1].ref_count
        } else {
            0
        }
    }

    /// How many objects the table holds.
    pub fn object_count(&self) -> (r: usize)
        ensures
            r == self.num_objects(),
    {
        self.objects.len()
    }

    /// Adds one object with the given behaviour and a reference count of one,
    /// returning its pointer; a script unsound for the current table is
    /// refused.
    pub fn add_object(&mut self, script: ObjectScript) -> (r: Option<usize>)
        requires
            old(self).wf(),
        ensures
            final(self).wf(),
            if script_valid(script, old(self).num_objects() as int) {
                &&& r matches Some(p) && p == old(self).num_objects() + 1
                &&& final(self).is_object(r->0)
                &&& final(self).ref_count(r->0) == 1
                &&& final(self).script_of(r->0) == script
                &&& final(self).num_objects() == old(self).num_objects() + 1
                &&& forall|q: usize|
                    old(self).is_object(q) ==> final(self).ref_count(q) == old(self).ref_count(q)
                        && final(self).script_of(q) == old(self).script_of(q)
                &&& final(self).heap == old(self).heap
                &&& old(self).same_classes(*final(self))
                &&& final(self).locks() == old(self).locks()
                &&& final(self).calls() == old(self).calls()
            } else {
                r is None && *final(self) == *old(self)
            },
    {
        let n = self.objects.len();
        if !check_script(&script, n) {
            return None;
        }
        Some(self.push_object(script))
    }

    /// Appends a sound object to the table with a reference count of one.
    fn push_object(&mut self, script: ObjectScript) -> (p: usize)
        requires
            old(self).wf(),
            script_valid(script, old(self).num_objects() as int),
        ensures
            final(self).wf(),
            p == old(self).num_objects() + 1,
            final(self).is_object(p),
            final(self).ref_count(p) == 1,
            final(self).script_of(p) == script,
            final(self).num_objects() == old(self).num_objects() + 1,
            forall|q: usize|
                old(self).is_object(q) ==> final(self).ref_count(q) == old(self).ref_count(q)
                    && final(self).script_of(q) == old(self).script_of(q),
            final(self).heap == old(self).heap,
            old(self).same_classes(*final(self)),
            final(self).locks() == old(self).locks(),
            final(self).calls() == old(self).calls(),
    {
        self.objects.push(ComObject { ref_count: 1, script });
        proof {
            assert(forall|i: int|
                0 <= i < self.objects@.len() - 1 ==> self.objects@[i] == old(self).objects@[i]);
            assert(forall|i: int|
                0 <= i < self.objects@.len() ==> script_valid(
                    (#[trigger] self.objects@[i]).script,
                    self.objects@.len() as int,
                )) by {
                assert forall|i: int| 0 <= i < self.objects@.len() implies script_valid(
                    (#[trigger] self.objects@[i]).script,
                    self.objects@.len() as int,
                ) by {
                    lemma_script_valid_monotone(
                        self.objects@[i].script,
                        self.objects@.len() - 1,
                        self.objects@.len() as int,
                    );
                }
            }
            assert(forall|i: int|
                0 <= i < self.classes@.len() ==> script_valid(
                    (#[trigger] self.classes@[i]).script,
                    self.objects@.len() as int,
                )) by {
                assert forall|i: int| 0 <= i < self.classes@.len() implies script_valid(
                    (#[trigger] self.classes@[i]).script,
                    self.objects@.len() as int,
                ) by {
                    lemma_script_valid_monotone(
                        self.classes@[i].script,
                        self.objects@.len() - 1,
                        self.objects@.len() as int,
                    );
                }
            }
            assert(old(self).same_classes(*self)) by {
                lemma_same_class_fields(*old(self), *self);
            }
        }
        self.objects.len()
    }

    /// Registers a class under an identifier; a second registration of the
    /// same identifier, or an unsound script, is refused.
    pub fn register_class(&mut self, clsid: u128, script: ObjectScript) -> (r: bool)
        requires
            old(self).wf(),
        ensures
            final(self).wf(),
            if !old(self).class_registered(clsid) && script_valid(
                script,
                old(self).num_objects() as int,
            ) {
                &&& r
                &&& final(self).class_registered(clsid)
                &&& final(self).class_script(clsid) == script
                &&& forall|c: u128|
                    c != clsid ==> (#[trigger] final(self).class_registered(c)) == old(self).class_registered(c) && (old(self).class_registered(c) ==> final(self).class_script(c) == old(self).class_script(c))
                &&& old(self).same_objects(*final(self))
                &&& final(self).heap == old(self).heap
                &&& final(self).locks() == old(self).locks()
                &&& final(self).calls() == old(self).calls()
            } else {
                !r && *final(self) == *old(self)
            },
    {
        if self.find_class(clsid).is_some() {
            return false;
        }
        if !check_script(&script, self.objects.len()) {
            return false;
        }
        self.classes.push(ClassEntry { clsid, script });
        proof {
            let n = self.classes@.len() - 1;
            assert(forall|i: int| 0 <= i < n ==> self.classes@[i] == old(self).classes@[i]);
            assert(self.wf());
            self.lemma_class_idx(n);
            assert forall|c: u128| c != clsid implies (#[trigger] self.class_registered(c))
                == old(self).class_registered(c) && (old(self).class_registered(c)
                ==> self.class_script(c) == old(self).class_script(c)) by {
                if old(self).class_registered(c) {
                    let i = old(self).class_idx(c);
                    assert(self.classes@[i].clsid == c);
                    self.lemma_class_idx(i);
                }
                if self.class_registered(c) {
                    let i = self.class_idx(c);
                    assert(i < n + 1);
                    assert(self.classes@[i].clsid == c);
                    assert(i != n);
                    assert(old(self).classes@[i].clsid == c);
                }
            }
        }
        true
    }

    /// Increments an object's reference count and returns the new count.
    pub fn add_ref(&mut self, p: usize) -> (r: u32)
        requires
            old(self).wf(),
            old(self).is_object(p),
            old(self).ref_count(p) < 0xFFFF_FFFFu32,
        ensures
            final(self).wf(),
            r == old(self).ref_count(p) + 1,
            final(self).ref_count(p) == r,
            old(self).same_objects_except(*final(self), p),
            final(self).heap == old(self).heap,
            old(self).same_classes(*final(self)),
            final(self).locks() == old(self).locks(),
            final(self).calls() == old(self).calls(),
    {
        let c = self.objects[p - 1].ref_count + 1;
        self.objects[p - 1].ref_count = c;
        proof {
            lemma_env_update_frame(*old(self), *self, (p - 1) as usize);
        }
        c
    }

    /// Decrements an object's reference count and returns the new count; a
    /// count of zero destroys the object.
    pub fn release(&mut self, p: usize) -> (r: u32)
        requires
            old(self).wf(),
            old(self).is_object(p),
            old(self).ref_count(p) > 0,
        ensures
            final(self).wf(),
            r == old(self).ref_count(p) - 1,
            final(self).ref_count(p) == r,
            old(self).same_objects_except(*final(self), p),
            final(self).heap == old(self).heap,
            old(self).same_classes(*final(self)),
            final(self).locks() == old(self).locks(),
            final(self).calls() == old(self).calls(),
    {
        let c = self.objects[p - 1].ref_count - 1;
        self.objects[p - 1].ref_count = c;
        proof {
            lemma_env_update_frame(*old(self), *self, (p - 1) as usize);
        }
        c
    }

    /// Asks an object for a capability.  A supported identifier yields the
    /// object's pointer carrying one fresh count; an identifier the object is
    /// scripted to corrupt yields success with a null pointer and no count; an
    /// unsupported one yields the no-such-interface code.
    pub fn query_interface_prim(&mut self, p: usize, iid: u128) -> (r: (i32, usize))
        requires
            old(self).wf(),
            old(self).is_object(p),
            old(self).ref_count(p) > 0,
            old(self).ref_count(p) < 0xFFFF_FFFFu32,
        ensures
            final(self).wf(),
            ({
                let s = old(self).script_of(p);
                if s.qi_null@.contains(iid) {
                    r == (S_OK, 0usize) && *final(self) == *old(self)
                } else if s.iids@.contains(iid) {
                    &&& r == (S_OK, p)
                    &&& final(self).ref_count(p) == old(self).ref_count(p) + 1
                    &&& old(self).same_objects_except(*final(self), p)
                    &&& final(self).heap == old(self).heap
                    &&& old(self).same_classes(*final(self))
                    &&& final(self).locks() == old(self).locks()
                    &&& final(self).calls() == old(self).calls()
                } else {
                    r == (E_NOINTERFACE, 0usize) && *final(self) == *old(self)
                }
            }),
    {
        if contains_iid(&self.objects[p - 1].script.qi_null, iid) {
            return (S_OK, 0);
        }
        if contains_iid(&self.objects[p - 1].script.iids, iid) {
            self.add_ref(p);
            return (S_OK, p);
        }
        (E_NOINTERFACE, 0)
    }

    /// In a well-formed environment the null string handle is never live.
    pub proof fn lemma_null_dead(self)
        requires
            self.wf(),
        ensures
            !self.heap.is_live(0),
    {
        self.heap.lemma_null_not_live();
    }

    /// How many invocations the foreign side has received.
    pub fn calls_len(&self) -> (r: usize)
        ensures
            r == self.calls().len(),
    {
        self.calls.len()
    }

    /// The raw arguments of one received invocation, exactly in the order the
    /// foreign side received them.
    pub fn call_args(&self, i: usize) -> (r: Vec<RawVariant>)
        requires
            i < self.calls().len(),
        ensures
            r@ == self.calls()[i as int].args@,
    {
        copy_raws(&self.calls[i].args)
    }

    /// Target pointer, member id, locale and kind flags of one received
    /// invocation.
    pub fn call_meta(&self, i: usize) -> (r: (usize, i32, u32, u16))
        requires
            i < self.calls().len(),
        ensures
            r.0 == self.calls()[i as int].target,
            r.1 == self.calls()[i as int].dispid,
            r.2 == self.calls()[i as int].lcid,
            r.3 == self.calls()[i as int].flags,
    {
        let rec = &self.calls[i];
        (rec.target, rec.dispid, rec.lcid, rec.flags)
    }

    /// Frees one string handle of the environment's heap; null is a no-op.
    pub fn free_bstr(&mut self, h: usize)
        requires
            old(self).wf(),
            h == 0 || old(self).heap.is_live(h),
        ensures
            final(self).wf(),
            final(self).heap.capacity() == old(self).heap.capacity(),
            final(self).heap.used() == old(self).heap.used(),
            h != 0 ==> !final(self).heap.is_live(h),
            forall|h2: usize|
                h2 != h ==> ((#[trigger] final(self).heap.is_live(h2)) == old(self).heap.is_live(
                    h2,
                )) && (old(self).heap.is_live(h2) ==> final(self).heap.contents(h2) == old(
                    self,
                ).heap.contents(h2)),
            old(self).same_objects(*final(self)),
            old(self).same_classes(*final(self)),
            final(self).locks() == old(self).locks(),
            final(self).calls() == old(self).calls(),
    {
        SysFreeString(&mut self.heap, h);
        proof {
            lemma_same_class_fields(*old(self), *self);
        }
    }

    /// Wraps a string handle, decodes its units to text, and frees it; the
    /// null handle decodes to the empty string.
    pub fn take_bstr_string(&mut self, h: usize) -> (r: String)
        requires
            old(self).wf(),
            h == 0 || old(self).heap.is_live(h),
        ensures
            final(self).wf(),
            r@ == if h == 0 {
                Seq::<char>::empty()
            } else {
                crate::utf16::decode16(old(self).heap.contents(h))
            },
            final(self).heap.capacity() == old(self).heap.capacity(),
            final(self).heap.used() == old(self).heap.used(),
            h != 0 ==> !final(self).heap.is_live(h),
            forall|h2: usize|
                h2 != h ==> ((#[trigger] final(self).heap.is_live(h2)) == old(self).heap.is_live(
                    h2,
                )) && (old(self).heap.is_live(h2) ==> final(self).heap.contents(h2) == old(
                    self,
                ).heap.contents(h2)),
            old(self).same_objects(*final(self)),
            old(self).same_classes(*final(self)),
            final(self).locks() == old(self).locks(),
            final(self).calls() == old(self).calls(),
    {
        let b = crate::auto_bstr::AutoBSTR::from_handle(h);
        let r = b.into_string(&mut self.heap);
        proof {
            lemma_same_class_fields(*old(self), *self);
        }
        r
    }

    /// Locks or unlocks the server; the count saturates at its bounds.
    pub fn lock_server_prim(&mut self, lock: bool) -> (r: i32)
        requires
            old(self).wf(),
        ensures
            final(self).wf(),
            r == S_OK,
            final(self).locks() == if lock {
                if old(self).locks() < 0xFFFF_FFFFu32 {
                    (old(self).locks() + 1) as u32
                } else {
                    old(self).locks()
                }
            } else {
                if old(self).locks() > 0 {
                    (old(self).locks() - 1) as u32
                } else {
                    0u32
                }
            },
            old(self).same_objects(*final(self)),
            final(self).heap == old(self).heap,
            old(self).same_classes(*final(self)),
            final(self).calls() == old(self).calls(),
    {
        if lock {
            if self.locks < 0xFFFF_FFFF {
                self.locks = self.locks + 1;
            }
        } else {
            if self.locks > 0 {
                self.locks = self.locks - 1;
            }
        }
        proof {
            lemma_same_class_fields(*old(self), *self);
        }
        S_OK
    }

    /// Creates one instance of a registered class and hands back its pointer,
    /// carrying one fresh count.  The execution-context bitmask is accepted
    /// and passed through unchanged; the model runs everything in its one
    /// context.  Aggregation is not supported: a non-null outer pointer is
    /// refused.
    pub fn create_instance_prim(&mut self, clsid: u128, outer: usize, clsctx: u32, iid: u128) -> (r:
        Result<usize, i32>)
        requires
            old(self).wf(),
        ensures
            final(self).wf(),
            if !old(self).class_registered(clsid) {
                r == Err::<usize, i32>(REGDB_E_CLASSNOTREG) && *final(self) == *old(self)
            } else if outer != 0 {
                r == Err::<usize, i32>(CLASS_E_NOAGGREGATION) && *final(self) == *old(self)
            } else if !old(self).class_script(clsid).iids@.contains(iid) {
                r == Err::<usize, i32>(E_NOINTERFACE) && *final(self) == *old(self)
            } else {
                created_instance_post(*old(self), *final(self), r, old(self).class_script(clsid))
            },
    {
        let i = match self.find_class(clsid) {
            Some(i) => i,
            None => {
                return Err(REGDB_E_CLASSNOTREG);
            },
        };
        if outer != 0 {
            return Err(CLASS_E_NOAGGREGATION);
        }
        if !contains_iid(&self.classes[i].script.iids, iid) {
            return Err(E_NOINTERFACE);
        }
        let instance = copy_script(&self.classes[i].script);
        proof {
            assert(script_valid(self.classes@[i as int].script, self.objects@.len() as int));
            lemma_script_valid_equiv(self.classes@[i as int].script, instance, self.objects@.len() as int);
        }
        Ok(self.push_object(instance))
    }

    /// Hands out the class object of a registered class: a fresh factory
    /// supporting the base and factory capabilities, remembering which class
    /// it creates, with one fresh count.  Only those two capabilities can be
    /// asked for here.
    pub fn get_class_object_prim(&mut self, clsid: u128, clsctx: u32, iid: u128) -> (r: Result<
        usize,
        i32,
    >)
        requires
            old(self).wf(),
        ensures
            final(self).wf(),
            if !old(self).class_registered(clsid) {
                r == Err::<usize, i32>(REGDB_E_CLASSNOTREG) && *final(self) == *old(self)
            } else if iid != IID_IUNKNOWN && iid != IID_ICLASSFACTORY {
                r == Err::<usize, i32>(E_NOINTERFACE) && *final(self) == *old(self)
            } else {
                &&& r matches Ok(p) && p == old(self).num_objects() + 1
                &&& final(self).is_object(r->Ok_0)
                &&& final(self).ref_count(r->Ok_0) == 1
                &&& final(self).script_of(r->Ok_0).factory_clsid == Some(clsid)
                &&& final(self).script_of(r->Ok_0).iids@ == seq![IID_IUNKNOWN, IID_ICLASSFACTORY]
                &&& final(self).script_of(r->Ok_0).qi_null@ == Seq::<u128>::empty()
                &&& final(self).script_of(r->Ok_0).handlers@ == Seq::<DispHandler>::empty()
                &&& final(self).num_objects() == old(self).num_objects() + 1
                &&& forall|q: usize|
                    old(self).is_object(q) ==> final(self).ref_count(q) == old(self).ref_count(q)
                        && final(self).script_of(q) == old(self).script_of(q)
                &&& final(self).heap == old(self).heap
                &&& old(self).same_classes(*final(self))
                &&& final(self).locks() == old(self).locks()
                &&& final(self).calls() == old(self).calls()
            },
    {
        if self.find_class(clsid).is_none() {
            return Err(REGDB_E_CLASSNOTREG);
        }
        if iid != IID_IUNKNOWN && iid != IID_ICLASSFACTORY {
            return Err(E_NOINTERFACE);
        }
        let mut factory = ObjectScript::empty();
        factory.iids.push(IID_IUNKNOWN);
        factory.iids.push(IID_ICLASSFACTORY);
        factory.factory_clsid = Some(clsid);
        proof {
            assert(factory.iids@ =~= seq![IID_IUNKNOWN, IID_ICLASSFACTORY]);
        }
        Ok(self.push_object(factory))
    }

    /// Asks a factory object to create one instance of its class.  An object
    /// that is no factory fails plainly; aggregation and unsupported
    /// capabilities are refused as in direct activation.
    pub fn factory_create_prim(&mut self, p: usize, outer: usize, iid: u128) -> (r: Result<
        usize,
        i32,
    >)
        requires
            old(self).wf(),
            old(self).is_object(p),
            old(self).ref_count(p) > 0,
        ensures
            final(self).wf(),
            match old(self).script_of(p).factory_clsid {
                Option::None => r == Err::<usize, i32>(E_FAIL) && *final(self) == *old(self),
                Option::Some(clsid) => {
                    if !old(self).class_registered(clsid) {
                        r == Err::<usize, i32>(REGDB_E_CLASSNOTREG) && *final(self) == *old(self)
                    } else if outer != 0 {
                        r == Err::<usize, i32>(CLASS_E_NOAGGREGATION) && *final(self) == *old(self)
                    } else if !old(self).class_script(clsid).iids@.contains(iid) {
                        r == Err::<usize, i32>(E_NOINTERFACE) && *final(self) == *old(self)
                    } else {
                        created_instance_post(
                            *old(self),
                            *final(self),
                            r,
                            old(self).class_script(clsid),
                        )
                    }
                },
            },
    {
        let clsid = match self.objects[p - 1].script.factory_clsid {
            Some(c) => c,
            None => {
                return Err(E_FAIL);
            },
        };
        self.create_instance_prim(clsid, outer, 0, iid)
    }
}

/// What creating an instance from a class script guarantees: one new object at
/// the end of the table, count one, behaving as the class script says, with
/// everything else untouched.
pub open spec fn created_instance_post(
    o: ComEnv,
    n: ComEnv,
    r: Result<usize, i32>,
    class_script: ObjectScript,
) -> bool {
    &&& r matches Ok(p) && p == o.num_objects() + 1
    &&& n.is_object(r->Ok_0)
    &&& n.ref_count(r->Ok_0) == 1
    &&& script_equiv(n.script_of(r->Ok_0), class_script)
    &&& n.num_objects() == o.num_objects() + 1
    &&& forall|q: usize|
        o.is_object(q) ==> n.ref_count(q) == o.ref_count(q) && n.script_of(q) == o.script_of(q)
    &&& n.heap == o.heap
    &&& o.same_classes(n)
    &&& n.locks() == o.locks()
    &&& n.calls() == o.calls()
}

/// Two scripts describe the same behaviour: every observable part is equal.
pub open spec fn script_equiv(a: ObjectScript, b: ObjectScript) -> bool {
    &&& a.iids@ == b.iids@
    &&& a.qi_null@ == b.qi_null@
    &&& a.names@ == b.names@
    &&& a.handlers@ == b.handlers@
    &&& a.type_info_count == b.type_info_count
    &&& a.type_info == b.type_info
    &&& a.factory_clsid == b.factory_clsid
}

/// Soundness of a script carries over to a behaviourally equal one.
proof fn lemma_script_valid_equiv(a: ObjectScript, b: ObjectScript, n: int)
    requires
        script_valid(a, n),
        script_equiv(b, a),
    ensures
        script_valid(b, n),
{
}

/// Copies a value of the tagged-union type.
fn clone_smart_variant(v: &SmartVariant) -> (r: SmartVariant)
    ensures
        r == *v,
{
    match v {
        SmartVariant::Empty => SmartVariant::Empty,
        SmartVariant::Int2(x) => SmartVariant::Int2(*x),
        SmartVariant::Int4(x) => SmartVariant::Int4(*x),
        SmartVariant::Real4(x) => SmartVariant::Real4(*x),
        SmartVariant::Real8(x) => SmartVariant::Real8(*x),
        SmartVariant::Date(x) => SmartVariant::Date(*x),
        SmartVariant::Text(s) => SmartVariant::Text(s.clone()),
        SmartVariant::IDispatch(p) => SmartVariant::IDispatch(*p),
        SmartVariant::ErrorCode(x) => SmartVariant::ErrorCode(*x),
        SmartVariant::Bool(b) => SmartVariant::Bool(*b),
        SmartVariant::Variant(p) => SmartVariant::Variant(*p),
        SmartVariant::IUnknown(p) => SmartVariant::IUnknown(*p),
        SmartVariant::Int1(x) => SmartVariant::Int1(*x),
        SmartVariant::UInt1(x) => SmartVariant::UInt1(*x),
        SmartVariant::UInt2(x) => SmartVariant::UInt2(*x),
        SmartVariant::UInt4(x) => SmartVariant::UInt4(*x),
        SmartVariant::Int(x) => SmartVariant::Int(*x),
        SmartVariant::UInt(x) => SmartVariant::UInt(*x),
        SmartVariant::Array(p) => SmartVariant::Array(*p),
        SmartVariant::ByRef(p) => SmartVariant::ByRef(*p),
    }
}

/// Copies a scripted outcome.
fn clone_outcome(o: &DispOutcome) -> (r: DispOutcome)
    ensures
        r == *o,
{
    match o {
        DispOutcome::Retv(v) => DispOutcome::Retv(clone_smart_variant(v)),
        DispOutcome::Failure { hresult, description, arg_err } => DispOutcome::Failure {
            hresult: *hresult,
            description: description.clone(),
            arg_err: *arg_err,
        },
    }
}

/// Copies a vector of identifiers.
fn copy_iids(v: &Vec<u128>) -> (r: Vec<u128>)
    ensures
        r@ == v@,
{
    let n = v.len();
    let mut out: Vec<u128> = Vec::new();
    let mut i: usize = 0;
    while i < n
        invariant
            i <= n,
            n == v@.len(),
            out@ == v@.take(i as int),
        decreases n - i,
    {
        out.push(v[i]);
        proof {
            assert(v@.take(i + 1) =~= v@.take(i as int).push(v@[i as int]));
        }
        i = i + 1;
    }
    proof {
        assert(v@.take(n as int) =~= v@);
    }
    out
}

/// Copies a name table.
fn copy_names(v: &Vec<NameEntry>) -> (r: Vec<NameEntry>)
    ensures
        r@ == v@,
{
    let n = v.len();
    let mut out: Vec<NameEntry> = Vec::new();
    let mut i: usize = 0;
    while i < n
        invariant
            i <= n,
            n == v@.len(),
            out@ == v@.take(i as int),
        decreases n - i,
    {
        let e = NameEntry { name: v[i].name.clone(), dispid: v[i].dispid };
        assert(e == v@[i as int]);
        out.push(e);
        proof {
            assert(v@.take(i + 1) =~= v@.take(i as int).push(v@[i as int]));
        }
        i = i + 1;
    }
    proof {
        assert(v@.take(n as int) =~= v@);
    }
    out
}

/// Copies a member table.
fn copy_handlers(v: &Vec<DispHandler>) -> (r: Vec<DispHandler>)
    ensures
        r@ == v@,
{
    let n = v.len();
    let mut out: Vec<DispHandler> = Vec::new();
    let mut i: usize = 0;
    while i < n
        invariant
            i <= n,
            n == v@.len(),
            out@ == v@.take(i as int),
        decreases n - i,
    {
        let e = DispHandler {
            dispid: v[i].dispid,
            flags: v[i].flags,
            outcome: clone_outcome(&v[i].outcome),
        };
        assert(e == v@[i as int]);
        out.push(e);
        proof {
            assert(v@.take(i + 1) =~= v@.take(i as int).push(v@[i as int]));
        }
        i = i + 1;
    }
    proof {
        assert(v@.take(n as int) =~= v@);
    }
    out
}

/// Copies a script; the copy behaves exactly as the one copied.
fn copy_script(s: &ObjectScript) -> (r: ObjectScript)
    ensures
        script_equiv(r, *s),
{
    ObjectScript {
        iids: copy_iids(&s.iids),
        qi_null: copy_iids(&s.qi_null),
        names: copy_names(&s.names),
        handlers: copy_handlers(&s.handlers),
        type_info_count: s.type_info_count,
        type_info: s.type_info,
        factory_clsid: s.factory_clsid,
    }
}

/// The outcome a member lookup finds in a sound handler table is itself sound.
proof fn lemma_find_handler_spec_ok(hs: Seq<DispHandler>, dispid: i32, flags: u16, n: int)
    requires
        forall|i: int| 0 <= i < hs.len() ==> outcome_ok((#[trigger] hs[i]).outcome, n),
    ensures
        match find_handler_spec(hs, dispid, flags) {
            Option::Some(oc) => outcome_ok(oc, n),
            Option::None => true,
        },
    decreases hs.len(),
{
    if hs.len() == 0 {
    } else if hs[0].dispid == dispid && hs[0].flags == flags {
        assert(outcome_ok(hs[0].outcome, n));
    } else {
        assert(forall|i: int|
            0 <= i < hs.drop_first().len() ==> (#[trigger] hs.drop_first()[i]) == hs[i + 1]);
        lemma_find_handler_spec_ok(hs.drop_first(), dispid, flags, n);
    }
}

impl ComEnv {
    /// What a member lookup on a live object can find is sound for the table:
    /// a failure outcome carries a failure code, and a returned object
    /// reference is null or an object of the table.
    pub proof fn lemma_handler_outcome_ok(self, p: usize, dispid: i32, flags: u16)
        requires
            self.wf(),
            self.is_object(p),
        ensures
            match find_handler_spec(self.script_of(p).handlers@, dispid, flags) {
                Option::Some(oc) => outcome_ok(oc, self.num_objects() as int),
                Option::None => true,
            },
    {
        assert(script_valid(self.objects@[p - 1].script, self.objects@.len() as int));
        lemma_find_handler_spec_ok(
            self.script_of(p).handlers@,
            dispid,
            flags,
            self.num_objects() as int,
        );
    }
}

/// The class registry reads the same across a chain of unchanged steps.
pub proof fn lemma_same_classes_trans(a: ComEnv, b: ComEnv, c: ComEnv)
    requires
        a.same_classes(b),
        b.same_classes(c),
    ensures
        a.same_classes(c),
{
    assert forall|x: u128| (#[trigger] c.class_registered(x)) == a.class_registered(x) && (
    a.class_registered(x) ==> c.class_script(x) == a.class_script(x)) by {
        assert(b.class_registered(x) == a.class_registered(x));
        assert(c.class_registered(x) == b.class_registered(x));
    }
}

/// The object table reads the same across a chain of unchanged steps.
pub proof fn lemma_same_objects_trans(a: ComEnv, b: ComEnv, c: ComEnv)
    requires
        a.same_objects(b),
        b.same_objects(c),
    ensures
        a.same_objects(c),
{
}

/// A script sound for a smaller table is sound for a larger one.
proof fn lemma_script_valid_monotone(s: ObjectScript, n1: int, n2: int)
    requires
        script_valid(s, n1),
        n1 <= n2,
    ensures
        script_valid(s, n2),
{
    assert forall|i: int| 0 <= i < s.handlers@.len() implies outcome_ok(
        (#[trigger] s.handlers@[i]).outcome,
        n2,
    ) by {
        assert(outcome_ok(s.handlers@[i].outcome, n1));
    }
}

/// When the class entries are untouched, class registration and scripts read
/// the same.
proof fn lemma_same_class_fields(e1: ComEnv, e2: ComEnv)
    requires
        e2.classes@ == e1.classes@,
    ensures
        e1.same_classes(e2),
{
    assert forall|c: u128| (#[trigger] e2.class_registered(c)) == e1.class_registered(c) && (
    e1.class_registered(c) ==> e2.class_script(c) == e1.class_script(c)) by {
        if e1.class_registered(c) {
            let i = e1.class_idx(c);
            assert(e2.classes@[i].clsid == c);
        }
        if e2.class_registered(c) {
            let i = e2.class_idx(c);
            assert(e1.classes@[i].clsid == c);
        }
    }
}

/// Updating one object's count leaves table shape, scripts and the rest of the
/// environment as they were.
proof fn lemma_env_update_frame(e1: ComEnv, e2: ComEnv, i: usize)
    requires
        e1.wf(),
        i < e1.objects@.len(),
        e2.objects@ == e1.objects@.update(
            i as int,
            ComObject { ref_count: e2.objects@[i as int].ref_count, ..e1.objects@[i as int] },
        ),
        e2.classes@ == e1.classes@,
        e2.heap == e1.heap,
        e2.locks == e1.locks,
        e2.calls@ == e1.calls@,
    ensures
        e2.wf(),
        e1.same_objects_except(e2, (i + 1) as usize),
        e1.same_classes(e2),
        e2.heap == e1.heap,
        e2.locks() == e1.locks(),
        e2.calls() == e1.calls(),
{
    assert(forall|k: int|
        0 <= k < e2.objects@.len() ==> (#[trigger] e2.objects@[k]).script == e1.objects@[k].script);
    lemma_same_class_fields(e1, e2);
}

/// Whether a vector of identifiers contains one.
fn contains_iid(v: &Vec<u128>, x: u128) -> (r: bool)
    ensures
        r == v@.contains(x),
{
    let n = v.len();
    let mut i: usize = 0;
    while i < n
        invariant
            i <= n,
            n == v@.len(),
            forall|k: int| 0 <= k < i ==> v@[k] != x,
        decreases n - i,
    {
        if v[i] == x {
            return true;
        }
        i = i + 1;
    }
    proof {
        if v@.contains(x) {
            let w = choose|w: int| 0 <= w < v@.len() && v@[w] == x;
            assert(v@[w] != x);
        }
    }
    false
}

/// Checks a script's soundness for a table of `n` objects.
fn check_script(s: &ObjectScript, n: usize) -> (r: bool)
    ensures
        r == script_valid(*s, n as int),
{
    if !(s.type_info == 0 || (1 <= s.type_info && s.type_info <= n)) {
        return false;
    }
    let m = s.handlers.len();
    let mut i: usize = 0;
    while i < m
        invariant
            i <= m,
            m == s.handlers@.len(),
            forall|k: int| 0 <= k < i ==> outcome_ok((#[trigger] s.handlers@[k]).outcome, n as int),
        decreases m - i,
    {
        let ok = match &s.handlers[i].outcome {
            DispOutcome::Retv(v) => match v {
                SmartVariant::IDispatch(p) => *p == 0 || (1 <= *p && *p <= n),
                SmartVariant::IUnknown(p) => *p == 0 || (1 <= *p && *p <= n),
                _ => true,
            },
            DispOutcome::Failure { hresult, description, arg_err } => *hresult < 0,
        };
        if !ok {
            return false;
        }
        i = i + 1;
    }
    true
}

/// Copies a vector of raw tagged-union values.
fn copy_raws(v: &Vec<RawVariant>) -> (r: Vec<RawVariant>)
    ensures
        r@ == v@,
{
    let n = v.len();
    let mut out: Vec<RawVariant> = Vec::new();
    let mut i: usize = 0;
    while i < n
        invariant
            i <= n,
            n == v@.len(),
            out@ == v@.take(i as int),
        decreases n - i,
    {
        out.push(v[i]);
        proof {
            assert(v@.take(i + 1) =~= v@.take(i as int).push(v@[i as int]));
        }
        i = i + 1;
    }
    proof {
        assert(v@.take(n as int) =~= v@);
    }
    out
}

/// A raw form is sound against an environment: an owned string handle is null
/// or live, and an owned object reference is null or a live object of the
/// table.
pub open spec fn raw_valid(raw: RawVariant, env: ComEnv) -> bool {
    &&& raw.vt == VT_BSTR ==> raw.data <= usize::MAX && (raw.data == 0 || env.heap.is_live(
        raw.data as usize,
    ))
    &&& (raw.vt == VT_DISPATCH || raw.vt == VT_UNKNOWN) ==> raw.data <= usize::MAX && (raw.data == 0
        || (env.is_object(raw.data as usize) && env.ref_count(raw.data as usize) > 0))
}

/// What clearing a raw form does to the environment: an owned string buffer is
/// freed, an owned object reference is released, anything else leaves the
/// environment alone.
pub open spec fn variant_clear_sem(raw: RawVariant, o: ComEnv, n: ComEnv) -> bool {
    if raw.vt == VT_BSTR && raw.data != 0 {
        &&& !n.heap.is_live(raw.data as usize)
        &&& n.heap.live_handles() + 1 == o.heap.live_handles()
        &&& n.heap.used() == o.heap.used()
        &&& n.heap.capacity() == o.heap.capacity()
        &&& forall|h2: usize|
            h2 != raw.data as usize ==> (n.heap.is_live(h2) == o.heap.is_live(h2)) && (
            o.heap.is_live(h2) ==> n.heap.contents(h2) == o.heap.contents(h2))
        &&& o.same_objects(n)
        &&& o.same_classes(n)
        &&& n.locks() == o.locks()
        &&& n.calls() == o.calls()
    } else if (raw.vt == VT_DISPATCH || raw.vt == VT_UNKNOWN) && raw.data != 0 {
        &&& n.ref_count(raw.data as usize) + 1 == o.ref_count(raw.data as usize)
        &&& o.same_objects_except(n, raw.data as usize)
        &&& n.heap == o.heap
        &&& o.same_classes(n)
        &&& n.locks() == o.locks()
        &&& n.calls() == o.calls()
    } else {
        n == o
    }
}

/// What constructing a raw form from a value does: text allocates a fresh
/// string handle or reports the allocator's failure, and every other variant
/// is a pure representation mapping that touches nothing.  Reference payloads
/// are copied without any count adjustment: the bridge is a representation
/// mapper, not a count-management point.
pub open spec fn from_value_sem(
    o: ComEnv,
    n: ComEnv,
    r: Result<AutoVariant, SysAllocError>,
    v: crate::smart_variant::VariantView,
) -> bool {
    &&& o.same_objects(n)
    &&& o.same_classes(n)
    &&& n.locks() == o.locks()
    &&& n.calls() == o.calls()
    &&& match v {
        crate::smart_variant::VariantView::Text(t) => {
            let units = encode16(t);
            if units.len() > 0xFFFF_FFFF {
                r == Err::<AutoVariant, SysAllocError>(SysAllocError::SourceStringTooLongError)
                    && n.heap == o.heap
            } else if !o.heap.can_alloc(units.len()) {
                r == Err::<AutoVariant, SysAllocError>(SysAllocError::BStrAllocationError)
                    && n.heap == o.heap
            } else {
                &&& r matches Ok(av) && raw_encodes(av.raw, v, n.heap)
                &&& alloc_post(o.heap, n.heap, Ok(r->Ok_0.raw.data as usize), units)
            }
        },
        _ => (r matches Ok(av) && raw_encodes(av.raw, v, n.heap)) && n.heap == o.heap,
    }
}

impl AutoVariant {
    /// Drives the staged union to the empty discriminant, releasing whatever
    /// its current discriminant owns: an owned string buffer is freed, an
    /// owned object reference released.  Clearing an already-empty union is a
    /// no-op.
    pub fn clear(&mut self, env: &mut ComEnv) -> (r: i32)
        requires
            old(env).wf(),
            raw_valid(old(self).raw, *old(env)),
        ensures
            final(env).wf(),
            final(self).raw == spec_raw_empty(),
            r == S_OK,
            variant_clear_sem(old(self).raw, *old(env), *final(env)),
    {
        if self.raw.vt == VT_BSTR && self.raw.data != 0 {
            let h = self.raw.data as usize;
            SysFreeString(&mut env.heap, h);
            proof {
                lemma_same_class_fields(*old(env), *env);
            }
        } else if (self.raw.vt == VT_DISPATCH || self.raw.vt == VT_UNKNOWN) && self.raw.data != 0 {
            let p = self.raw.data as usize;
            env.release(p);
        }
        self.raw = raw_empty();
        S_OK
    }

    /// Builds a fresh transient from a value: the exact discriminant and
    /// payload bits of the value's raw form.  Text allocates a new string
    /// handle from the encoded characters, propagating allocation failure;
    /// reference payloads are copied without touching any count.
    pub fn from_value(env: &mut ComEnv, v: &SmartVariant) -> (r: Result<AutoVariant, SysAllocError>)
        requires
            old(env).wf(),
        ensures
            final(env).wf(),
            from_value_sem(*old(env), *final(env), r, v@),
    {
        let raw = match v {
            SmartVariant::Empty => RawVariant { vt: VT_EMPTY, data: 0 },
            SmartVariant::Int2(x) => RawVariant { vt: VT_I2, data: (*x as u16) as u64 },
            SmartVariant::Int4(x) => RawVariant { vt: VT_I4, data: (*x as u32) as u64 },
            SmartVariant::Real4(x) => RawVariant { vt: VT_R4, data: *x as u64 },
            SmartVariant::Real8(x) => RawVariant { vt: VT_R8, data: *x },
            SmartVariant::Date(x) => RawVariant { vt: VT_DATE, data: *x },
            SmartVariant::Text(s) => {
                let units = string_to_utf16(s.as_str());
                let src = Utf16Src::of_units(units);
                match SysAllocStringLen(&mut env.heap, &src) {
                    Ok(h) => {
                        proof {
                            lemma_same_class_fields(*old(env), *env);
                        }
                        return Ok(AutoVariant { raw: RawVariant { vt: VT_BSTR, data: h as u64 } });
                    },
                    Err(e) => {
                        proof {
                            lemma_same_class_fields(*old(env), *env);
                        }
                        return Err(e);
                    },
                }
            },
            SmartVariant::IDispatch(p) => RawVariant { vt: VT_DISPATCH, data: *p as u64 },
            SmartVariant::ErrorCode(x) => RawVariant { vt: VT_ERROR, data: (*x as u32) as u64 },
            SmartVariant::Bool(b) => RawVariant {
                vt: VT_BOOL,
                data: if *b {
                    VARIANT_TRUE_BITS
                } else {
                    0
                },
            },
            SmartVariant::Variant(p) => RawVariant { vt: VT_VARIANT, data: *p as u64 },
            SmartVariant::IUnknown(p) => RawVariant { vt: VT_UNKNOWN, data: *p as u64 },
            SmartVariant::Int1(x) => RawVariant { vt: VT_I1, data: (*x as u8) as u64 },
            SmartVariant::UInt1(x) => RawVariant { vt: VT_UI1, data: *x as u64 },
            SmartVariant::UInt2(x) => RawVariant { vt: VT_UI2, data: *x as u64 },
            SmartVariant::UInt4(x) => RawVariant { vt: VT_UI4, data: *x as u64 },
            SmartVariant::Int(x) => RawVariant { vt: VT_INT, data: (*x as u32) as u64 },
            SmartVariant::UInt(x) => RawVariant { vt: VT_UINT, data: *x as u64 },
            SmartVariant::Array(p) => RawVariant { vt: VT_ARRAY, data: *p as u64 },
            SmartVariant::ByRef(p) => RawVariant { vt: VT_BYREF, data: *p as u64 },
        };
        Ok(AutoVariant { raw })
    }

    /// Reads the staged union's value without consuming it: text is decoded
    /// from the handle's units, which stay allocated; nothing in the
    /// environment changes.
    pub fn value(&self, env: &ComEnv) -> (r: SmartVariant)
        requires
            env.wf(),
            raw_valid(self.raw, *env),
            recognized_vt(self.raw.vt),
        ensures
            r@ == raw_value_view(self.raw, env.heap),
    {
        let vt = self.raw.vt;
        let data = self.raw.data;
        if vt == VT_EMPTY {
            SmartVariant::Empty
        } else if vt == VT_I2 {
            SmartVariant::Int2(data as u16 as i16)
        } else if vt == VT_I4 {
            SmartVariant::Int4(data as u32 as i32)
        } else if vt == VT_R4 {
            SmartVariant::Real4(data as u32)
        } else if vt == VT_R8 {
            SmartVariant::Real8(data)
        } else if vt == VT_DATE {
            SmartVariant::Date(data)
        } else if vt == VT_BSTR {
            let h = data as usize;
            if h == 0 {
                SmartVariant::Text(String::new())
            } else {
                let units = env.heap.units_of(h);
                SmartVariant::Text(utf16_to_string_lossy(&units))
            }
        } else if vt == VT_DISPATCH {
            SmartVariant::IDispatch(data as usize)
        } else if vt == VT_ERROR {
            SmartVariant::ErrorCode(data as u32 as i32)
        } else if vt == VT_BOOL {
            SmartVariant::Bool(data as u16 == 0xFFFFu16)
        } else if vt == VT_VARIANT {
            SmartVariant::Variant(data as usize)
        } else if vt == VT_UNKNOWN {
            SmartVariant::IUnknown(data as usize)
        } else if vt == VT_I1 {
            SmartVariant::Int1(data as u8 as i8)
        } else if vt == VT_UI1 {
            SmartVariant::UInt1(data as u8)
        } else if vt == VT_UI2 {
            SmartVariant::UInt2(data as u16)
        } else if vt == VT_UI4 {
            SmartVariant::UInt4(data as u32)
        } else if vt == VT_INT {
            SmartVariant::Int(data as u32 as i32)
        } else if vt == VT_UINT {
            SmartVariant::UInt(data as u32)
        } else if vt == VT_ARRAY {
            SmartVariant::Array(data as usize)
        } else {
            assert(vt == VT_BYREF);
            SmartVariant::ByRef(data as usize)
        }
    }

    /// Consumes the staged union into a value.  The discriminant is captured
    /// and the staging ends here: text is decoded from the handle's units and
    /// the handle freed — the value owns only the decoded text — while a
    /// reference payload moves into the value with its count untouched.
    pub fn into_value(self, env: &mut ComEnv) -> (r: SmartVariant)
        requires
            old(env).wf(),
            raw_valid(self.raw, *old(env)),
            recognized_vt(self.raw.vt),
        ensures
            final(env).wf(),
            r@ == raw_value_view(self.raw, old(env).heap),
            old(env).same_objects(*final(env)),
            old(env).same_classes(*final(env)),
            final(env).locks() == old(env).locks(),
            final(env).calls() == old(env).calls(),
            if self.raw.vt == VT_BSTR && self.raw.data != 0 {
                &&& !final(env).heap.is_live(self.raw.data as usize)
                &&& final(env).heap.live_handles() + 1 == old(env).heap.live_handles()
                &&& final(env).heap.used() == old(env).heap.used()
                &&& final(env).heap.capacity() == old(env).heap.capacity()
                &&& forall|h2: usize|
                    h2 != self.raw.data as usize ==> (final(env).heap.is_live(h2) == old(env).heap.is_live(h2)) && (old(env).heap.is_live(h2) ==> final(env).heap.contents(h2) == old(env).heap.contents(h2))
            } else {
                final(env).heap == old(env).heap
            },
    {
        if self.raw.vt == VT_BSTR && self.raw.data != 0 {
            let h = self.raw.data as usize;
            let units = env.heap.units_of(h);
            let text = utf16_to_string_lossy(&units);
            SysFreeString(&mut env.heap, h);
            proof {
                lemma_same_class_fields(*old(env), *env);
            }
            SmartVariant::Text(text)
        } else {
            let r = self.value(env);
            r
        }
    }

    /// Clears the staged union, then writes the given value into it, as one
    /// step: exactly the clear followed by a fresh construction from the
    /// value.  On allocation failure the union stays cleared.
    pub fn value_set(self, env: &mut ComEnv, value: &SmartVariant) -> (r: Result<
        AutoVariant,
        SysAllocError,
    >)
        requires
            old(env).wf(),
            raw_valid(self.raw, *old(env)),
        ensures
            final(env).wf(),
            exists|mid: ComEnv|
                variant_clear_sem(self.raw, *old(env), mid) && #[trigger] from_value_sem(
                    mid,
                    *final(env),
                    r,
                    value@,
                ),
            old(env).same_classes(*final(env)),
            final(env).locks() == old(env).locks(),
            final(env).calls() == old(env).calls(),
    {
        let mut staged = self;
        staged.clear(env);
        let ghost mid = *env;
        let out = AutoVariant::from_value(env, value);
        proof {
            assert(variant_clear_sem(self.raw, *old(env), mid));
            assert(from_value_sem(mid, *env, out, value@));
            lemma_same_classes_trans(*old(env), mid, *env);
        }
        out
    }
}

/// The null-terminated UTF-16 buffer a name is encoded to before name
/// resolution crosses the boundary.
pub open spec fn name_buf(name: Seq<char>) -> Seq<u16> {
    encode16(name).push(0u16)
}

/// Two names with the same encoded buffer are the same name.
pub proof fn lemma_name_buf_injective(a: Seq<char>, b: Seq<char>)
    requires
        name_buf(a) == name_buf(b),
    ensures
        a == b,
{
    assert(encode16(a) =~= name_buf(a).drop_last());
    assert(encode16(b) =~= name_buf(b).drop_last());
    lemma_encode16_injective(a, b);
}

/// The member id the first table entry whose encoded buffer equals the given
/// one resolves to.
pub open spec fn resolve_buf_spec(names: Seq<NameEntry>, buf: Seq<u16>) -> Option<i32>
    decreases names.len(),
{
    if names.len() == 0 {
        None
    } else if name_buf(names[0].name@) == buf {
        Some(names[0].dispid)
    } else {
        resolve_buf_spec(names.drop_first(), buf)
    }
}

/// The member id the first table entry with the given name resolves to.
pub open spec fn resolve_name_spec(names: Seq<NameEntry>, name: Seq<char>) -> Option<i32>
    decreases names.len(),
{
    if names.len() == 0 {
        None
    } else if names[0].name@ == name {
        Some(names[0].dispid)
    } else {
        resolve_name_spec(names.drop_first(), name)
    }
}

/// Resolving a name's encoded buffer is resolving the name.
pub proof fn lemma_resolve_buf_name(names: Seq<NameEntry>, name: Seq<char>)
    ensures
        resolve_buf_spec(names, name_buf(name)) == resolve_name_spec(names, name),
    decreases names.len(),
{
    if names.len() == 0 {
    } else {
        if name_buf(names[0].name@) == name_buf(name) {
            lemma_name_buf_injective(names[0].name@, name);
        }
        lemma_resolve_buf_name(names.drop_first(), name);
    }
}

/// A match at `j` with no match before it is the resolution.
proof fn lemma_resolve_buf_at(names: Seq<NameEntry>, buf: Seq<u16>, j: int)
    requires
        0 <= j < names.len(),
        name_buf(names[j].name@) == buf,
        forall|k: int| 0 <= k < j ==> name_buf((#[trigger] names[k]).name@) != buf,
    ensures
        resolve_buf_spec(names, buf) == Some(names[j].dispid),
    decreases j,
{
    if j == 0 {
    } else {
        assert(forall|k: int|
            0 <= k < j - 1 ==> (#[trigger] names.drop_first()[k]) == names[k + 1]);
        lemma_resolve_buf_at(names.drop_first(), buf, j - 1);
    }
}

/// With no match anywhere there is no resolution.
proof fn lemma_resolve_buf_none(names: Seq<NameEntry>, buf: Seq<u16>)
    requires
        forall|k: int| 0 <= k < names.len() ==> name_buf((#[trigger] names[k]).name@) != buf,
    ensures
        resolve_buf_spec(names, buf) is None,
    decreases names.len(),
{
    if names.len() == 0 {
    } else {
        assert(forall|k: int|
            0 <= k < names.len() - 1 ==> (#[trigger] names.drop_first()[k]) == names[k + 1]);
        lemma_resolve_buf_none(names.drop_first(), buf);
    }
}

/// Compares two code unit buffers.
fn u16_vec_eq(a: &Vec<u16>, b: &Vec<u16>) -> (r: bool)
    ensures
        r == (a@ == b@),
{
    let n = a.len();
    if n != b.len() {
        proof {
            assert(a@.len() != b@.len());
        }
        return false;
    }
    let mut i: usize = 0;
    while i < n
        invariant
            i <= n,
            n == a@.len(),
            n == b@.len(),
            forall|k: int| 0 <= k < i ==> a@[k] == b@[k],
        decreases n - i,
    {
        if a[i] != b[i] {
            return false;
        }
        i = i + 1;
    }
    proof {
        assert(a@ =~= b@);
    }
    true
}

/// Resolves one encoded buffer against a name table: the first matching
/// entry's member id, or -1.
fn resolve_one(names: &Vec<NameEntry>, buf: &Vec<u16>) -> (r: i32)
    ensures
        r == match resolve_buf_spec(names@, buf@) {
            Some(d) => d,
            None => -1i32,
        },
{
    let n = names.len();
    let mut j: usize = 0;
    while j < n
        invariant
            j <= n,
            n == names@.len(),
            forall|k: int| 0 <= k < j ==> name_buf((#[trigger] names@[k]).name@) != buf@,
        decreases n - j,
    {
        let mut nb = string_to_utf16(names[j].name.as_str());
        nb.push(0);
        proof {
            assert(nb@ == name_buf(names@[j as int].name@));
        }
        if u16_vec_eq(&nb, buf) {
            proof {
                lemma_resolve_buf_at(names@, buf@, j as int);
            }
            return names[j].dispid;
        }
        j = j + 1;
    }
    proof {
        lemma_resolve_buf_none(names@, buf@);
    }
    -1
}

/// The outcome of the first member entry matching an id and kind.
pub open spec fn find_handler_spec(hs: Seq<DispHandler>, dispid: i32, flags: u16) -> Option<
    DispOutcome,
>
    decreases hs.len(),
{
    if hs.len() == 0 {
        None
    } else if hs[0].dispid == dispid && hs[0].flags == flags {
        Some(hs[0].outcome)
    } else {
        find_handler_spec(hs.drop_first(), dispid, flags)
    }
}

/// A member match at `j` with no match before it is the found member.
proof fn lemma_find_handler_at(hs: Seq<DispHandler>, dispid: i32, flags: u16, j: int)
    requires
        0 <= j < hs.len(),
        hs[j].dispid == dispid && hs[j].flags == flags,
        forall|k: int|
            0 <= k < j ==> !((#[trigger] hs[k]).dispid == dispid && hs[k].flags == flags),
    ensures
        find_handler_spec(hs, dispid, flags) == Some(hs[j].outcome),
    decreases j,
{
    if j == 0 {
    } else {
        assert(forall|k: int| 0 <= k < j - 1 ==> (#[trigger] hs.drop_first()[k]) == hs[k + 1]);
        lemma_find_handler_at(hs.drop_first(), dispid, flags, j - 1);
    }
}

/// With no member match anywhere nothing is found.
proof fn lemma_find_handler_none(hs: Seq<DispHandler>, dispid: i32, flags: u16)
    requires
        forall|k: int|
            0 <= k < hs.len() ==> !((#[trigger] hs[k]).dispid == dispid && hs[k].flags == flags),
    ensures
        find_handler_spec(hs, dispid, flags) is None,
    decreases hs.len(),
{
    if hs.len() == 0 {
    } else {
        assert(forall|k: int|
            0 <= k < hs.len() - 1 ==> (#[trigger] hs.drop_first()[k]) == hs[k + 1]);
        lemma_find_handler_none(hs.drop_first(), dispid, flags);
    }
}

/// Finds the index of the first member entry matching an id and kind.
fn find_handler_idx(hs: &Vec<DispHandler>, dispid: i32, flags: u16) -> (r: Option<usize>)
    ensures
        match r {
            Some(j) => {
                &&& j < hs@.len()
                &&& find_handler_spec(hs@, dispid, flags) == Some(hs@[j as int].outcome)
            },
            None => find_handler_spec(hs@, dispid, flags) is None,
        },
{
    let n = hs.len();
    let mut j: usize = 0;
    while j < n
        invariant
            j <= n,
            n == hs@.len(),
            forall|k: int|
                0 <= k < j ==> !((#[trigger] hs@[k]).dispid == dispid && hs@[k].flags == flags),
        decreases n - j,
    {
        if hs[j].dispid == dispid && hs[j].flags == flags {
            proof {
                lemma_find_handler_at(hs@, dispid, flags, j as int);
            }
            return Some(j);
        }
        j = j + 1;
    }
    proof {
        lemma_find_handler_none(hs@, dispid, flags);
    }
    None
}

/// What the foreign side answers to one invocation.
pub struct InvokeReply {
    /// The status code.
    pub hresult: i32,
    /// The raw result union; empty unless the invocation succeeded.
    pub result: RawVariant,
    /// The string handle of the failure description, or 0 for none.  The
    /// caller owns it and must free it.
    pub excep: usize,
    /// The index of the implicated argument on failure.
    pub arg_err: u32,
}

/// What a returned object reference does to the environment: a null pointer
/// is copied plainly; a live one comes back carrying one fresh count, unless
/// its count cannot grow, which the model reports as exhaustion.
pub open spec fn obj_ref_result(
    o: ComEnv,
    n: ComEnv,
    r: InvokeReply,
    vv: crate::smart_variant::VariantView,
    q: usize,
) -> bool {
    if q == 0 {
        &&& r.hresult == S_OK
        &&& raw_encodes(r.result, vv, n.heap)
        &&& n.heap == o.heap
        &&& o.same_objects(n)
    } else if o.ref_count(q) < 0xFFFF_FFFFu32 {
        &&& r.hresult == S_OK
        &&& raw_encodes(r.result, vv, n.heap)
        &&& n.heap == o.heap
        &&& n.is_object(q)
        &&& n.ref_count(q) == o.ref_count(q) + 1
        &&& o.same_objects_except(n, q)
    } else {
        &&& r.hresult == E_OUTOFMEMORY
        &&& r.result == spec_raw_empty()
        &&& n.heap == o.heap
        &&& o.same_objects(n)
    }
}

/// What one invocation answers and does, given the member entry found: no
/// member yields the member-not-found code; a scripted failure yields its
/// code, its description as a fresh string handle the caller must free, and
/// its argument index; a scripted return yields the value's raw form, text on
/// a fresh string handle and an object reference with one fresh count.
pub open spec fn invoke_sem(
    o: ComEnv,
    n: ComEnv,
    r: InvokeReply,
    outcome: Option<DispOutcome>,
) -> bool {
    match outcome {
        Option::None => {
            &&& r.hresult == DISP_E_MEMBERNOTFOUND
            &&& r.result == spec_raw_empty()
            &&& r.excep == 0
            &&& r.arg_err == 0
            &&& n.heap == o.heap
            &&& o.same_objects(n)
        },
        Option::Some(DispOutcome::Failure { hresult, description, arg_err }) => {
            &&& r.hresult == hresult
            &&& r.hresult < 0
            &&& r.result == spec_raw_empty()
            &&& r.arg_err == arg_err
            &&& o.same_objects(n)
            &&& ({
                let units = encode16(description@);
                if units.len() <= 0xFFFF_FFFF && o.heap.can_alloc(units.len()) {
                    alloc_post(o.heap, n.heap, Ok(r.excep), units)
                } else {
                    r.excep == 0 && n.heap == o.heap
                }
            })
        },
        Option::Some(DispOutcome::Retv(v)) => {
            &&& r.excep == 0
            &&& r.arg_err == 0
            &&& match v {
                SmartVariant::Text(t) => {
                    let units = encode16(t@);
                    if units.len() <= 0xFFFF_FFFF && o.heap.can_alloc(units.len()) {
                        &&& r.hresult == S_OK
                        &&& raw_encodes(r.result, v@, n.heap)
                        &&& alloc_post(o.heap, n.heap, Ok(r.result.data as usize), units)
                        &&& o.same_objects(n)
                    } else {
                        &&& r.hresult == E_OUTOFMEMORY
                        &&& r.result == spec_raw_empty()
                        &&& n.heap == o.heap
                        &&& o.same_objects(n)
                    }
                },
                SmartVariant::IDispatch(q) => obj_ref_result(o, n, r, v@, q),
                SmartVariant::IUnknown(q) => obj_ref_result(o, n, r, v@, q),
                _ => {
                    &&& r.hresult == S_OK
                    &&& raw_encodes(r.result, v@, n.heap)
                    &&& n.heap == o.heap
                    &&& o.same_objects(n)
                },
            }
        },
    }
}

impl ComEnv {
    /// Resolves a batch of encoded name buffers against an object's name
    /// table: each position gets its member id or -1, and the whole batch
    /// reports success only when every name resolved.
    pub fn get_ids_prim(&self, p: usize, bufs: &Vec<Vec<u16>>) -> (r: (Vec<i32>, i32))
        requires
            self.wf(),
            self.is_object(p),
            self.ref_count(p) > 0,
        ensures
            r.0@.len() == bufs@.len(),
            forall|i: int|
                0 <= i < bufs@.len() ==> r.0@[i] == match resolve_buf_spec(
                    self.script_of(p).names@,
                    (#[trigger] bufs@[i])@,
                ) {
                    Some(d) => d,
                    None => -1i32,
                },
            r.1 == if (forall|i: int|
                0 <= i < bufs@.len() ==> resolve_buf_spec(
                    self.script_of(p).names@,
                    (#[trigger] bufs@[i])@,
                ) is Some) {
                S_OK
            } else {
                DISP_E_UNKNOWNNAME
            },
    {
        let names = &self.objects[p - 1].script.names;
        let n = bufs.len();
        let mut ids: Vec<i32> = Vec::new();
        let mut all_found = true;
        let mut i: usize = 0;
        while i < n
            invariant
                i <= n,
                n == bufs@.len(),
                names@ == self.script_of(p).names@,
                ids@.len() == i,
                forall|k: int|
                    0 <= k < i ==> ids@[k] == match resolve_buf_spec(
                        self.script_of(p).names@,
                        (#[trigger] bufs@[k])@,
                    ) {
                        Some(d) => d,
                        None => -1i32,
                    },
                all_found == (forall|k: int|
                    0 <= k < i ==> resolve_buf_spec(
                        self.script_of(p).names@,
                        (#[trigger] bufs@[k])@,
                    ) is Some),
            decreases n - i,
        {
            let id = resolve_one(names, &bufs[i]);
            proof {
                if resolve_buf_spec(self.script_of(p).names@, bufs@[i as int]@) is None {
                    assert(id == -1i32);
                }
            }
            let found = resolve_buf_spec_check(names, &bufs[i]);
            ids.push(id);
            all_found = all_found && found;
            i = i + 1;
        }
        let hr = if all_found {
            S_OK
        } else {
            DISP_E_UNKNOWNNAME
        };
        (ids, hr)
    }

    /// Hands out the object holding an in-range type description, carrying
    /// one fresh count; an out-of-range index, or an object that offers none,
    /// is refused with the bad-index code.
    pub fn get_type_info_prim(&mut self, p: usize, itinfo: u32) -> (r: Result<usize, i32>)
        requires
            old(self).wf(),
            old(self).is_object(p),
            old(self).ref_count(p) > 0,
        ensures
            final(self).wf(),
            ({
                let s = old(self).script_of(p);
                if itinfo < s.type_info_count && s.type_info != 0 {
                    if old(self).ref_count(s.type_info) < 0xFFFF_FFFFu32 {
                        &&& r == Ok::<usize, i32>(s.type_info)
                        &&& final(self).is_object(s.type_info)
                        &&& final(self).ref_count(s.type_info) == old(self).ref_count(s.type_info)
                            + 1
                        &&& old(self).same_objects_except(*final(self), s.type_info)
                        &&& final(self).heap == old(self).heap
                        &&& old(self).same_classes(*final(self))
                        &&& final(self).locks() == old(self).locks()
                        &&& final(self).calls() == old(self).calls()
                    } else {
                        r == Err::<usize, i32>(E_OUTOFMEMORY) && *final(self) == *old(self)
                    }
                } else {
                    r == Err::<usize, i32>(DISP_E_BADINDEX) && *final(self) == *old(self)
                }
            }),
    {
        let ti = self.objects[p - 1].script.type_info;
        let count = self.objects[p - 1].script.type_info_count;
        if !(itinfo < count && ti != 0) {
            return Err(DISP_E_BADINDEX);
        }
        if self.objects[ti - 1].ref_count == 0xFFFF_FFFF {
            return Err(E_OUTOFMEMORY);
        }
        self.add_ref(ti);
        Ok(ti)
    }

    /// Receives one invocation: records it exactly as given — arguments in
    /// the order they arrived — finds the scripted member, and answers as the
    /// script says.
    pub fn invoke_prim(
        &mut self,
        p: usize,
        dispid: i32,
        lcid: u32,
        flags: u16,
        args: &Vec<RawVariant>,
    ) -> (r: InvokeReply)
        requires
            old(self).wf(),
            old(self).is_object(p),
            old(self).ref_count(p) > 0,
        ensures
            final(self).wf(),
            final(self).calls().len() == old(self).calls().len() + 1,
            final(self).calls().drop_last() == old(self).calls(),
            ({
                let rec = final(self).calls().last();
                rec.target == p && rec.dispid == dispid && rec.lcid == lcid && rec.flags == flags
                    && rec.args@ == args@
            }),
            final(self).num_objects() == old(self).num_objects(),
            forall|q: usize|
                old(self).is_object(q) ==> final(self).script_of(q) == old(self).script_of(q),
            old(self).same_classes(*final(self)),
            final(self).locks() == old(self).locks(),
            invoke_sem(
                *old(self),
                *final(self),
                r,
                find_handler_spec(old(self).script_of(p).handlers@, dispid, flags),
            ),
    {
        let rec = InvokeRecord { target: p, dispid, lcid, flags, args: copy_raws(args) };
        self.calls.push(rec);
        proof {
            assert(self.calls@.drop_last() =~= old(self).calls@);
            lemma_same_class_fields(*old(self), *self);
        }
        let idx = find_handler_idx(&self.objects[p - 1].script.handlers, dispid, flags);
        let j = match idx {
            None => {
                return InvokeReply {
                    hresult: DISP_E_MEMBERNOTFOUND,
                    result: raw_empty(),
                    excep: 0,
                    arg_err: 0,
                };
            },
            Some(j) => j,
        };
        let outcome = clone_outcome(&self.objects[p - 1].script.handlers[j].outcome);
        proof {
            assert(outcome_ok(self.objects@[p - 1].script.handlers@[j as int].outcome, self.objects@.len() as int));
        }
        match outcome {
            DispOutcome::Failure { hresult, description, arg_err } => {
                let units = string_to_utf16(description.as_str());
                let src = Utf16Src::of_units(units);
                let excep = match SysAllocStringLen(&mut self.heap, &src) {
                    Ok(h) => h,
                    Err(_) => 0,
                };
                proof {
                    lemma_same_class_fields(*old(self), *self);
                }
                InvokeReply { hresult, result: raw_empty(), excep, arg_err }
            },
            DispOutcome::Retv(v) => {
                let needs_ref: usize = match &v {
                    SmartVariant::IDispatch(q) => *q,
                    SmartVariant::IUnknown(q) => *q,
                    _ => 0,
                };
                if needs_ref != 0 && self.objects[needs_ref - 1].ref_count == 0xFFFF_FFFF {
                    return InvokeReply {
                        hresult: E_OUTOFMEMORY,
                        result: raw_empty(),
                        excep: 0,
                        arg_err: 0,
                    };
                }
                let av = match AutoVariant::from_value(self, &v) {
                    Ok(av) => av,
                    Err(_) => {
                        return InvokeReply {
                            hresult: E_OUTOFMEMORY,
                            result: raw_empty(),
                            excep: 0,
                            arg_err: 0,
                        };
                    },
                };
                if needs_ref != 0 {
                    self.add_ref(needs_ref);
                }
                InvokeReply { hresult: S_OK, result: av.raw, excep: 0, arg_err: 0 }
            },
        }
    }
}

/// Whether a buffer resolves at all against a name table.
fn resolve_buf_spec_check(names: &Vec<NameEntry>, buf: &Vec<u16>) -> (r: bool)
    ensures
        r == (resolve_buf_spec(names@, buf@) is Some),
{
    let n = names.len();
    let mut j: usize = 0;
    while j < n
        invariant
            j <= n,
            n == names@.len(),
            forall|k: int| 0 <= k < j ==> name_buf((#[trigger] names@[k]).name@) != buf@,
        decreases n - j,
    {
        let mut nb = string_to_utf16(names[j].name.as_str());
        nb.push(0);
        proof {
            assert(nb@ == name_buf(names@[j as int].name@));
        }
        if u16_vec_eq(&nb, buf) {
            proof {
                lemma_resolve_buf_at(names@, buf@, j as int);
            }
            return true;
        }
        j = j + 1;
    }
    proof {
        lemma_resolve_buf_none(names@, buf@);
    }
    false
}

} // verus!
