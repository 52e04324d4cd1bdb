//! The dynamic-dispatch protocol on an object handle: introspection, name
//! resolution, and member invocation.
//!
//! Name resolution encodes every name to a null-terminated UTF-16 buffer
//! before it crosses the boundary, and an unresolved name yields the member id
//! -1 at its own position even when the rest of the batch resolves.
//! Invocation converts the caller's arguments to raw tagged unions, hands them
//! to the foreign side in reverse of the caller's order — the wire
//! convention is right-to-left — and frees every buffer the conversion
//! allocated once the call returns, so an invocation leaks nothing whatever
//! its outcome.  A failure comes back as the foreign status code, the decoded
//! and already-freed description text, and the implicated argument's index.

use vstd::prelude::*;

verus! {

use crate::auto_com_interface::AutoCOMInterface;
use crate::com_env::ComEnv;
use crate::com_env::DispOutcome;
use crate::com_env::find_handler_spec;
use crate::com_env::resolve_buf_spec;
use crate::com_env::resolve_name_spec;
use crate::com_env::lemma_resolve_buf_name;
use crate::com_env::lemma_same_classes_trans;
use crate::com_env::lemma_same_objects_trans;
use crate::com_env::name_buf;
use crate::com_interface::IDispatch;
use crate::com_interface::ITypeInfo;
use crate::hresult::DISP_E_BADINDEX;
use crate::hresult::DISP_E_MEMBERNOTFOUND;
use crate::hresult::DISP_E_UNKNOWNNAME;
use crate::hresult::DISPATCH_METHOD;
use crate::hresult::DISPATCH_PROPERTYGET;
use crate::hresult::DISPATCH_PROPERTYPUT;
use crate::hresult::E_OUTOFMEMORY;
use crate::hresult::LOCALE_USER_DEFAULT;
use crate::hresult::S_OK;
use crate::hresult::SUCCEEDED;
use crate::smart_variant::AutoVariant;
use crate::smart_variant::RawVariant;
use crate::smart_variant::SmartVariant;
use crate::smart_variant::VT_BSTR;
use crate::smart_variant::raw_encodes_bits;
use crate::utf16::encode16;
use crate::utf16::string_to_utf16;

/// The bump-region bytes converting one argument takes: an allocation for a
/// text argument, nothing for any other.
pub open spec fn arg_bytes(v: SmartVariant) -> nat {
    match v {
        SmartVariant::Text(s) => 6 + 2 * encode16(s@).len(),
        _ => 0,
    }
}

/// The bump-region bytes converting an argument list takes.
pub open spec fn args_alloc_bytes(ps: Seq<SmartVariant>) -> nat
    decreases ps.len(),
{
    if ps.len() == 0 {
        0
    } else {
        arg_bytes(ps[0]) + args_alloc_bytes(ps.drop_first())
    }
}

/// One argument converts on a heap with `used` of `cap` bytes taken.
pub open spec fn arg_fits(v: SmartVariant, used: nat, cap: nat) -> bool {
    match v {
        SmartVariant::Text(s) => encode16(s@).len() <= 0xFFFF_FFFF && used + 6 + 2 * encode16(
            s@,
        ).len() <= cap,
        _ => true,
    }
}

/// A whole argument list converts, each argument on the heap state the ones
/// before it leave behind.
pub open spec fn args_fit(ps: Seq<SmartVariant>, used: nat, cap: nat) -> bool
    decreases ps.len(),
{
    if ps.len() == 0 {
        true
    } else {
        arg_fits(ps[0], used, cap) && args_fit(
            ps.drop_first(),
            used + arg_bytes(ps[0]),
            cap,
        )
    }
}

/// The position of the first argument that does not convert.
pub open spec fn first_unfit(ps: Seq<SmartVariant>, used: nat, cap: nat) -> int
    decreases ps.len(),
{
    if ps.len() == 0 {
        0
    } else if !arg_fits(ps[0], used, cap) {
        0
    } else {
        1 + first_unfit(ps.drop_first(), used + arg_bytes(ps[0]), cap)
    }
}

/// Everything one invocation guarantees.  The heap comes back with exactly
/// the live handles and contents it had — every buffer the call allocated is
/// freed again — and the object table keeps its shape and scripts.  When the
/// arguments convert, the foreign side records the call with the raw
/// arguments in reverse caller order, and the result maps the scripted
/// member's outcome: a returned value comes back equal (an object reference
/// carrying one fresh count), a scripted failure comes back as its code, its
/// decoded description and its argument index, a missing member as the
/// member-not-found code.  An argument that cannot be converted stops the
/// invocation before any foreign call, naming its position.
pub open spec fn invoke_post(
    o: ComEnv,
    n: ComEnv,
    p: usize,
    dispid: i32,
    lcid: u32,
    flags: u16,
    params: Seq<SmartVariant>,
    r: Result<SmartVariant, (i32, String, u32)>,
) -> bool {
    let outcome = find_handler_spec(o.script_of(p).handlers@, dispid, flags);
    let fits = args_fit(params, o.heap.used(), o.heap.capacity());
    let mid_used = o.heap.used() + args_alloc_bytes(params);
    &&& n.heap.capacity() == o.heap.capacity()
    &&& forall|h: usize|
        ((#[trigger] n.heap.is_live(h)) == o.heap.is_live(h)) && (o.heap.is_live(h)
            ==> n.heap.contents(h) == o.heap.contents(h))
    &&& n.num_objects() == o.num_objects()
    &&& forall|q: usize| o.is_object(q) ==> (#[trigger] n.script_of(q)) == o.script_of(q)
    &&& o.same_classes(n)
    &&& n.locks() == o.locks()
    &&& if !fits {
        &&& r matches Err(e) && e.0 == E_OUTOFMEMORY && e.1@ == "argument conversion failed"@
            && e.2 == first_unfit(params, o.heap.used(), o.heap.capacity()) as u32
        &&& n.calls() == o.calls()
        &&& o.same_objects(n)
    } else {
        &&& n.calls().len() == o.calls().len() + 1
        &&& n.calls().drop_last() == o.calls()
        &&& ({
            let rec = n.calls().last();
            &&& rec.target == p
            &&& rec.dispid == dispid
            &&& rec.lcid == lcid
            &&& rec.flags == flags
            &&& rec.args@.len() == params.len()
            &&& forall|i: int|
                0 <= i < params.len() ==> raw_encodes_bits(
                    #[trigger] rec.args@[i],
                    params[params.len() - 1 - i]@,
                )
        })
        &&& match outcome {
            Option::None => {
                &&& r matches Err(e) && e.0 == DISP_E_MEMBERNOTFOUND && e.1@ == Seq::<
                    char,
                >::empty() && e.2 == 0
                &&& o.same_objects(n)
            },
            Option::Some(DispOutcome::Failure { hresult, description, arg_err }) => {
                &&& r matches Err(e) && e.0 == hresult && e.2 == arg_err && e.1@ == (
                if encode16(description@).len() <= 0xFFFF_FFFF && mid_used + 6 + 2 * encode16(
                    description@,
                ).len() <= o.heap.capacity() {
                    description@
                } else {
                    Seq::<char>::empty()
                })
                &&& o.same_objects(n)
            },
            Option::Some(DispOutcome::Retv(v)) => {
                let ok = match v {
                    SmartVariant::Text(t) => encode16(t@).len() <= 0xFFFF_FFFF && mid_used + 6 + 2
                        * encode16(t@).len() <= o.heap.capacity(),
                    SmartVariant::IDispatch(q) => q == 0 || o.ref_count(q) < 0xFFFF_FFFFu32,
                    SmartVariant::IUnknown(q) => q == 0 || o.ref_count(q) < 0xFFFF_FFFFu32,
                    _ => true,
                };
                if ok {
                    &&& r matches Ok(rv) && rv@ == v@
                    &&& match v {
                        SmartVariant::IDispatch(q) => if q != 0 {
                            &&& n.ref_count(q) == o.ref_count(q) + 1
                            &&& o.same_objects_except(n, q)
                        } else {
                            o.same_objects(n)
                        },
                        SmartVariant::IUnknown(q) => if q != 0 {
                            &&& n.ref_count(q) == o.ref_count(q) + 1
                            &&& o.same_objects_except(n, q)
                        } else {
                            o.same_objects(n)
                        },
                        _ => o.same_objects(n),
                    }
                } else {
                    &&& r matches Err(e) && e.0 == E_OUTOFMEMORY && e.1@ == Seq::<char>::empty()
                        && e.2 == 0
                    &&& o.same_objects(n)
                }
            },
        }
    }
}

impl AutoCOMInterface<IDispatch> {
    /// How many type descriptions the object offers; the model's objects
    /// always answer.
    pub fn get_type_info_count(&self, env: &ComEnv) -> (r: Result<u32, i32>)
        requires
            env.wf(),
            self.valid(*env),
        ensures
            r == Ok::<u32, i32>(env.script_of(self.spec_ptr()).type_info_count),
    {
        Ok(env.objects[self.as_iunknown_ptr() - 1].script.type_info_count)
    }

    /// The object holding an in-range type description, wrapped with its own
    /// fresh count; the locale is passed through and does not pick the
    /// description in this model.
    pub fn get_type_info(&self, env: &mut ComEnv, i_t_info: u32, lcid: u32) -> (r: Result<
        AutoCOMInterface<ITypeInfo>,
        i32,
    >)
        requires
            old(env).wf(),
            self.valid(*old(env)),
        ensures
            final(env).wf(),
            ({
                let s = old(env).script_of(self.spec_ptr());
                if i_t_info < s.type_info_count && s.type_info != 0 {
                    if old(env).ref_count(s.type_info) < 0xFFFF_FFFFu32 {
                        &&& r matches Ok(h) && h.spec_ptr() == s.type_info
                        &&& r->Ok_0.valid(*final(env))
                        &&& final(env).ref_count(s.type_info) == old(env).ref_count(s.type_info)
                            + 1
                        &&& old(env).same_objects_except(*final(env), s.type_info)
                        &&& final(env).heap == old(env).heap
                        &&& old(env).same_classes(*final(env))
                        &&& final(env).locks() == old(env).locks()
                        &&& final(env).calls() == old(env).calls()
                    } else {
                        r == Err::<AutoCOMInterface<ITypeInfo>, i32>(E_OUTOFMEMORY) && *final(env)
                            == *old(env)
                    }
                } else {
                    r == Err::<AutoCOMInterface<ITypeInfo>, i32>(DISP_E_BADINDEX) && *final(env)
                        == *old(env)
                }
            }),
    {
        match env.get_type_info_prim(self.as_iunknown_ptr(), i_t_info) {
            Ok(ti) => {
                match AutoCOMInterface::<ITypeInfo>::try_from(ti) {
                    Ok(h) => Ok(h),
                    Err(_) => {
                        proof {
                            assert(false);
                        }
                        Err(DISP_E_BADINDEX)
                    },
                }
            },
            Err(code) => Err(code),
        }
    }

    /// Resolves a batch of names to member ids.  Every name is encoded to a
    /// null-terminated UTF-16 buffer before the call; each position gets its
    /// id or -1, and the status reports success only when the whole batch
    /// resolved, so callers must check each id rather than the status alone.
    pub fn get_ids_of_names(&self, env: &ComEnv, names: &Vec<String>, lcid: u32) -> (r: (
        Vec<i32>,
        i32,
    ))
        requires
            env.wf(),
            self.valid(*env),
        ensures
            r.0@.len() == names@.len(),
            forall|i: int|
                0 <= i < names@.len() ==> r.0@[i] == match resolve_name_spec(
                    env.script_of(self.spec_ptr()).names@,
                    (#[trigger] names@[i])@,
                ) {
                    Some(d) => d,
                    None => -1i32,
                },
            r.1 == if (forall|i: int|
                0 <= i < names@.len() ==> resolve_name_spec(
                    env.script_of(self.spec_ptr()).names@,
                    (#[trigger] names@[i])@,
                ) is Some) {
                S_OK
            } else {
                DISP_E_UNKNOWNNAME
            },
    {
        let n = names.len();
        let mut bufs: Vec<Vec<u16>> = Vec::new();
        let mut i: usize = 0;
        while i < n
            invariant
                i <= n,
                n == names@.len(),
                bufs@.len() == i,
                forall|k: int| 0 <= k < i ==> (#[trigger] bufs@[k])@ == name_buf(names@[k]@),
            decreases n - i,
        {
            let mut nb = string_to_utf16(names[i].as_str());
            nb.push(0);
            proof {
                assert(nb@ == name_buf(names@[i as int]@));
            }
            bufs.push(nb);
            i = i + 1;
        }
        let (ids, hr) = env.get_ids_prim(self.as_iunknown_ptr(), &bufs);
        proof {
            let table = env.script_of(self.spec_ptr()).names@;
            assert forall|k: int| 0 <= k < n implies resolve_buf_spec(table, (#[trigger] bufs@[k])@)
                == resolve_name_spec(table, names@[k]@) by {
                lemma_resolve_buf_name(table, names@[k]@);
            }
            assert forall|i: int| 0 <= i < names@.len() implies ids@[i] == (match resolve_name_spec(
                table,
                (#[trigger] names@[i])@,
            ) {
                Some(d) => d,
                None => -1i32,
            }) by {
                assert(resolve_buf_spec(table, bufs@[i]@) == resolve_name_spec(table, names@[i]@));
            }
            if forall|i: int|
                0 <= i < names@.len() ==> resolve_name_spec(table, (#[trigger] names@[i])@) is Some {
                assert forall|i: int| 0 <= i < bufs@.len() implies resolve_buf_spec(
                    table,
                    (#[trigger] bufs@[i])@,
                ) is Some by {
                    assert(resolve_name_spec(table, names@[i]@) is Some);
                }
                assert(hr == S_OK);
            } else {
                let w = choose|i: int|
                    0 <= i < names@.len() && !(resolve_name_spec(
                        table,
                        (#[trigger] names@[i])@,
                    ) is Some);
                assert(!(resolve_buf_spec(table, bufs@[w]@) is Some));
                assert(hr == DISP_E_UNKNOWNNAME);
            }
        }
        (ids, hr)
    }

    /// Invokes a member: converts the arguments to raw unions, passes them to
    /// the foreign call in reverse caller order, and consumes the raw result
    /// into a value on success or the failure triple — status code, decoded
    /// description, implicated argument index — on failure.  Every buffer the
    /// conversion allocated, the description's handle included, is freed by
    /// the time this returns.
    #[verifier::rlimit(100)]
    pub fn invoke(
        &self,
        env: &mut ComEnv,
        member_dispid: i32,
        lcid: u32,
        flags: u16,
        params: &Vec<SmartVariant>,
    ) -> (r: Result<SmartVariant, (i32, String, u32)>)
        requires
            old(env).wf(),
            self.valid(*old(env)),
        ensures
            final(env).wf(),
            invoke_post(
                *old(env),
                *final(env),
                self.spec_ptr(),
                member_dispid,
                lcid,
                flags,
                params@,
                r,
            ),
    {
        let ghost o = *old(env);
        let ghost u0 = o.heap.used();
        let ghost cap = o.heap.capacity();
        let n = params.len();
        let mut raws: Vec<RawVariant> = Vec::new();
        let mut i: usize = 0;
        proof {
            assert(params@.skip(0) =~= params@);
            assert(params@.take(0) =~= Seq::<SmartVariant>::empty());
        }
        while i < n
            invariant
                i <= n,
                n == params@.len(),
                env.wf(),
                self.valid(*env),
                self.valid(o),
                o.wf(),
                o == *old(env),
                raws@.len() == i,
                env.heap.capacity() == cap,
                cap == o.heap.capacity(),
                u0 == o.heap.used(),
                env.heap.used() == u0 + args_alloc_bytes(params@.take(i as int)),
                forall|h: usize|
                    o.heap.is_live(h) ==> (#[trigger] env.heap.is_live(h)) && env.heap.contents(h)
                        == o.heap.contents(h),
                forall|h: usize|
                    (#[trigger] env.heap.is_live(h)) && !o.heap.is_live(h) ==> is_text_handle(
                        raws@,
                        h,
                    ),
                forall|k: int|
                    0 <= k < i ==> crate::smart_variant::raw_encodes(
                        #[trigger] raws@[k],
                        params@[k]@,
                        env.heap,
                    ),
                forall|k: int|
                    0 <= k < i && (#[trigger] raws@[k]).vt == VT_BSTR ==> raws@[k].data != 0
                        && raws@[k].data <= usize::MAX && !o.heap.is_live(raws@[k].data as usize),
                forall|k1: int, k2: int|
                    0 <= k1 < k2 < i && (#[trigger] raws@[k1]).vt == VT_BSTR && (
                    #[trigger] raws@[k2]).vt == VT_BSTR ==> raws@[k1].data != raws@[k2].data,
                o.same_objects(*env),
                o.same_classes(*env),
                env.locks() == o.locks(),
                env.calls() == o.calls(),
                args_fit(params@, u0, cap) == args_fit(
                    params@.skip(i as int),
                    env.heap.used() as nat,
                    cap,
                ),
                !args_fit(params@, u0, cap) ==> first_unfit(params@, u0, cap) == i + first_unfit(
                    params@.skip(i as int),
                    env.heap.used() as nat,
                    cap,
                ),
            decreases n - i,
        {
            proof {
                assert(params@.skip(i as int)[0] == params@[i as int]);
                assert(params@.skip(i as int).drop_first() =~= params@.skip(i + 1));
            }
            let ghost env_before = *env;
            let ghost raws0 = raws@;
            match AutoVariant::from_value(env, &params[i]) {
                Ok(av) => {
                    raws.push(av.raw);
                    proof {
                        assert(raws@.drop_last() =~= raws0);
                        assert(params@.take(i + 1) =~= params@.take(i as int).push(
                            params@[i as int],
                        ));
                        lemma_args_alloc_bytes_push(params@.take(i as int), params@[i as int]);
                        lemma_same_objects_trans(o, env_before, *env);
                        lemma_same_classes_trans(o, env_before, *env);
                        assert(forall|k: int| 0 <= k < i ==> #[trigger] raws@[k] == raws0[k]);
                        if params@[i as int] is Text {
                            let newh = av.raw.data as usize;
                            assert(!env_before.heap.is_live(newh));
                            assert(forall|k: int|
                                0 <= k < i && (#[trigger] raws0[k]).vt == VT_BSTR
                                    ==> env_before.heap.is_live(raws0[k].data as usize));
                            assert forall|h: usize|
                                (#[trigger] env.heap.is_live(h)) && !o.heap.is_live(h) implies
                                is_text_handle(raws@, h) by {
                                if h == newh {
                                    assert(raws@[i as int].vt == VT_BSTR && raws@[i as int].data
                                        as usize == h);
                                } else {
                                    assert(env_before.heap.is_live(h));
                                    assert(is_text_handle(raws0, h));
                                    let k = choose|k: int|
                                        0 <= k < raws0.len() && (#[trigger] raws0[k]).vt == VT_BSTR
                                            && raws0[k].data as usize == h;
                                    assert(raws@[k].vt == VT_BSTR && raws@[k].data as usize == h);
                                }
                            }
                        } else {
                            assert(env.heap == env_before.heap);
                            assert forall|h: usize|
                                (#[trigger] env.heap.is_live(h)) && !o.heap.is_live(h) implies
                                is_text_handle(raws@, h) by {
                                assert(is_text_handle(raws0, h));
                                let k = choose|k: int|
                                    0 <= k < raws0.len() && (#[trigger] raws0[k]).vt == VT_BSTR
                                        && raws0[k].data as usize == h;
                                assert(raws@[k].vt == VT_BSTR && raws@[k].data as usize == h);
                            }
                        }
                    }
                    i = i + 1;
                },
                Err(_) => {
                    proof {
                        assert(env.heap == env_before.heap);
                        assert(!arg_fits(params@[i as int], env.heap.used() as nat, cap));
                        assert(!args_fit(params@.skip(i as int), env.heap.used() as nat, cap));
                        assert(first_unfit(params@.skip(i as int), env.heap.used() as nat, cap)
                            == 0);
                        assert(first_unfit(params@, u0, cap) == i);
                    }
                    let ghost env_err = *env;
                    proof {
                        lemma_same_objects_trans(o, env_before, env_err);
                        lemma_same_classes_trans(o, env_before, env_err);
                    }
                    free_arg_texts(env, &raws);
                    proof {
                        lemma_same_objects_trans(o, env_err, *env);
                        lemma_same_classes_trans(o, env_err, *env);
                        assert forall|h: usize|
                            ((#[trigger] env.heap.is_live(h)) == o.heap.is_live(h)) && (
                            o.heap.is_live(h) ==> env.heap.contents(h) == o.heap.contents(h)) by {
                            if o.heap.is_live(h) {
                                assert(!is_text_handle(raws@, h)) by {
                                    if is_text_handle(raws@, h) {
                                        let k = choose|k: int|
                                            0 <= k < raws@.len() && (#[trigger] raws@[k]).vt
                                                == VT_BSTR && raws@[k].data as usize == h;
                                        assert(!o.heap.is_live(h));
                                    }
                                }
                                assert(env_err.heap.is_live(h) && env_err.heap.contents(h)
                                    == o.heap.contents(h));
                            } else {
                                if env.heap.is_live(h) {
                                    assert(!is_text_handle(raws@, h)) by {
                                        if is_text_handle(raws@, h) {
                                            let k = choose|k: int|
                                                0 <= k < raws@.len() && (#[trigger] raws@[k]).vt
                                                    == VT_BSTR && raws@[k].data as usize == h;
                                            assert(!env.heap.is_live(h));
                                        }
                                    }
                                    assert(env_err.heap.is_live(h));
                                    assert(is_text_handle(raws@, h));
                                }
                            }
                        }
                    }
                    let out: Result<SmartVariant, (i32, String, u32)> = Err(
                        (
                            E_OUTOFMEMORY,
                            <String as vstd::string::StringExecFns>::from_str(
                                "argument conversion failed",
                            ),
                            i as u32,
                        ),
                    );
                    proof {
                        assert(invoke_post(
                            o,
                            *env,
                            self.spec_ptr(),
                            member_dispid,
                            lcid,
                            flags,
                            params@,
                            out,
                        ));
                    }
                    return out;
                },
            }
        }
        proof {
            assert(params@.take(n as int) =~= params@);
            assert(params@.skip(n as int) =~= Seq::<SmartVariant>::empty());
            assert(args_fit(params@, u0, cap));
        }
        let ghost env1 = *env;
        let mut rev: Vec<RawVariant> = Vec::new();
        let mut k: usize = n;
        while k > 0
            invariant
                k <= n,
                raws@.len() == n,
                rev@.len() == n - k,
                forall|j: int| 0 <= j < n - k ==> #[trigger] rev@[j] == raws@[n - 1 - j],
                *env == env1,
                o == *old(env),
            decreases k,
        {
            k = k - 1;
            rev.push(raws[k]);
        }
        proof {
            assert(env1.script_of(self.spec_ptr()) == o.script_of(self.spec_ptr()));
            assert(o.same_objects(env1));
            assert(forall|h: usize|
                o.heap.is_live(h) ==> (#[trigger] env1.heap.is_live(h)) && env1.heap.contents(h)
                    == o.heap.contents(h));
            assert(forall|k: int|
                0 <= k < n ==> crate::smart_variant::raw_encodes(
                    #[trigger] raws@[k],
                    params@[k]@,
                    env1.heap,
                ));
        }
        let reply = env.invoke_prim(self.as_iunknown_ptr(), member_dispid, lcid, flags, &rev);
        let ghost env2 = *env;
        let ghost outcome = find_handler_spec(
            o.script_of(self.spec_ptr()).handlers@,
            member_dispid,
            flags,
        );
        proof {
            assert(crate::com_env::invoke_sem(env1, env2, reply, outcome));
            lemma_same_classes_trans(o, env1, env2);
            assert(env2.calls().last().args@ == rev@);
        }
        free_arg_texts(env, &raws);
        let ghost env3 = *env;
        proof {
            lemma_same_classes_trans(o, env2, env3);
        }
        if SUCCEEDED(reply.hresult) {
            proof {
                match outcome {
                    Option::Some(DispOutcome::Retv(v)) => {
                        assert(crate::smart_variant::raw_encodes(reply.result, v@, env2.heap));
                        if v is Text {
                            let rh = reply.result.data as usize;
                            assert(env1.heap.is_live(rh) == false);
                            assert(!is_text_handle(raws@, rh)) by {
                                if is_text_handle(raws@, rh) {
                                    let k = choose|k: int|
                                        0 <= k < raws@.len() && (#[trigger] raws@[k]).vt == VT_BSTR
                                            && raws@[k].data as usize == rh;
                                    assert(env1.heap.is_live(rh));
                                }
                            }
                            assert(env3.heap.is_live(rh));
                        }
                        assert(crate::smart_variant::raw_encodes(reply.result, v@, env3.heap));
                        assert(crate::smart_variant::recognized_vt(reply.result.vt));
                        assert(crate::com_env::raw_valid(reply.result, env3));
                    },
                    _ => {
                        assert(false);
                    },
                }
            }
            let av = AutoVariant { raw: reply.result };
            let v = av.into_value(env);
            proof {
                let sp = self.spec_ptr();
                let vv = match outcome {
                    Option::Some(DispOutcome::Retv(sv)) => sv,
                    _ => SmartVariant::Empty,
                };
                crate::smart_variant::lemma_variant_round_trip(reply.result, vv@, env3.heap);
                assert(v@ == vv@);
                o.lemma_handler_outcome_ok(self.spec_ptr(), member_dispid, flags);
                match vv {
                    SmartVariant::Text(t) => {
                        assert(env1.heap.used() == o.heap.used() + args_alloc_bytes(params@));
                    },
                    SmartVariant::IDispatch(q) => {
                        if q != 0 {
                            assert(o.is_object(q));
                            assert(env1.ref_count(q) == o.ref_count(q));
                            if env1.ref_count(q) >= 0xFFFF_FFFFu32 {
                                assert(false);
                            }
                        }
                    },
                    SmartVariant::IUnknown(q) => {
                        if q != 0 {
                            assert(o.is_object(q));
                            assert(env1.ref_count(q) == o.ref_count(q));
                            if env1.ref_count(q) >= 0xFFFF_FFFFu32 {
                                assert(false);
                            }
                        }
                    },
                    _ => {},
                }
                lemma_same_classes_trans(o, env3, *env);
                // the call record survives untouched
                assert(env.calls() =~= o.calls().push(env2.calls().last()));
                assert(env.calls().drop_last() =~= o.calls());
                assert forall|i2: int| 0 <= i2 < params@.len() implies raw_encodes_bits(
                    #[trigger] env.calls().last().args@[i2],
                    params@[params@.len() - 1 - i2]@,
                ) by {
                    assert(env.calls().last().args@[i2] == rev@[i2]);
                    assert(rev@[i2] == raws@[n - 1 - i2]);
                    assert(crate::smart_variant::raw_encodes(
                        raws@[n - 1 - i2],
                        params@[n - 1 - i2]@,
                        env1.heap,
                    ));
                }
                // counts: one fresh count on a returned object reference, else none
                match vv {
                    SmartVariant::IDispatch(q0) => {
                        if q0 != 0 {
                            assert(env.ref_count(q0) == o.ref_count(q0) + 1);
                            assert forall|q: usize| o.is_object(q) && q != q0 implies
                                #[trigger] env.ref_count(q) == o.ref_count(q) by {
                                assert(env1.ref_count(q) == o.ref_count(q));
                                assert(env2.ref_count(q) == env1.ref_count(q));
                                assert(env3.ref_count(q) == env2.ref_count(q));
                            }
                        } else {
                            assert(o.same_objects(env2));
                        }
                    },
                    SmartVariant::IUnknown(q0) => {
                        if q0 != 0 {
                            assert(env.ref_count(q0) == o.ref_count(q0) + 1);
                            assert forall|q: usize| o.is_object(q) && q != q0 implies
                                #[trigger] env.ref_count(q) == o.ref_count(q) by {
                                assert(env1.ref_count(q) == o.ref_count(q));
                                assert(env2.ref_count(q) == env1.ref_count(q));
                                assert(env3.ref_count(q) == env2.ref_count(q));
                            }
                        } else {
                            assert(o.same_objects(env2));
                        }
                    },
                    _ => {
                        assert(o.same_objects(env2));
                    },
                }
                assert forall|q: usize| o.is_object(q) implies (#[trigger] env.script_of(q))
                    == o.script_of(q) by {
                    assert(env1.script_of(q) == o.script_of(q));
                    assert(env2.script_of(q) == env1.script_of(q));
                    assert(env3.script_of(q) == env2.script_of(q));
                }
                let ghost rh: usize = if reply.result.vt == VT_BSTR {
                    reply.result.data as usize
                } else {
                    0
                };
                o.lemma_null_dead();
                env.lemma_null_dead();
                assert forall|h: usize| env1.heap.is_live(h) implies (
                #[trigger] env2.heap.is_live(h)) && env2.heap.contents(h) == env1.heap.contents(
                    h,
                ) by {
                    match outcome {
                        Option::Some(DispOutcome::Retv(sv)) => {
                            match sv {
                                SmartVariant::Text(t) => {
                                    assert(rh != 0 && !env1.heap.is_live(rh));
                                    assert(h != rh);
                                },
                                _ => {
                                    assert(env2.heap == env1.heap);
                                },
                            }
                        },
                        _ => {
                            assert(false);
                        },
                    }
                }
                assert forall|h: usize| (#[trigger] env2.heap.is_live(h)) implies
                    env1.heap.is_live(h) || (h == rh && rh != 0) by {
                    match outcome {
                        Option::Some(DispOutcome::Retv(sv)) => {
                            match sv {
                                SmartVariant::Text(t) => {
                                    if h != rh {
                                        assert(env2.heap.is_live(h) == env1.heap.is_live(h));
                                    }
                                },
                                _ => {
                                    assert(env2.heap == env1.heap);
                                },
                            }
                        },
                        _ => {
                            assert(false);
                        },
                    }
                }
                assert(rh != 0 ==> !env1.heap.is_live(rh)) by {
                    match outcome {
                        Option::Some(DispOutcome::Retv(sv)) => {
                            match sv {
                                SmartVariant::Text(t) => {},
                                _ => {},
                            }
                        },
                        _ => {},
                    }
                }
                assert forall|h: usize| h != rh implies ((#[trigger] env.heap.is_live(h))
                    == env3.heap.is_live(h)) && (env3.heap.is_live(h) ==> env.heap.contents(h)
                    == env3.heap.contents(h)) by {
                    if reply.result.vt == VT_BSTR && reply.result.data != 0 {
                        assert(h != reply.result.data as usize);
                    } else {
                        assert(env.heap == env3.heap);
                    }
                }
                lemma_invoke_heap_restored(o, env1, env2, env3, *env, raws@, rh);
            }
            let out: Result<SmartVariant, (i32, String, u32)> = Ok(v);
            proof {
                assert(invoke_post(
                    o,
                    *env,
                    self.spec_ptr(),
                    member_dispid,
                    lcid,
                    flags,
                    params@,
                    out,
                ));
            }
            out
        } else {
            proof {
                match outcome {
                    Option::Some(DispOutcome::Retv(v)) => {
                        assert(reply.excep == 0);
                    },
                    Option::Some(DispOutcome::Failure { hresult, description, arg_err }) => {
                        if reply.excep != 0 {
                            assert(env1.heap.is_live(reply.excep) == false);
                            assert(!is_text_handle(raws@, reply.excep)) by {
                                if is_text_handle(raws@, reply.excep) {
                                    let k = choose|k: int|
                                        0 <= k < raws@.len() && (#[trigger] raws@[k]).vt == VT_BSTR
                                            && raws@[k].data as usize == reply.excep;
                                    assert(env1.heap.is_live(reply.excep));
                                }
                            }
                            assert(env3.heap.is_live(reply.excep));
                        }
                    },
                    Option::None => {
                        assert(reply.excep == 0);
                    },
                }
            }
            let msg = env.take_bstr_string(reply.excep);
            proof {
                lemma_same_classes_trans(o, env3, *env);
                assert(env.calls() =~= o.calls().push(env2.calls().last()));
                assert(env.calls().drop_last() =~= o.calls());
                assert forall|i2: int| 0 <= i2 < params@.len() implies raw_encodes_bits(
                    #[trigger] env.calls().last().args@[i2],
                    params@[params@.len() - 1 - i2]@,
                ) by {
                    assert(env.calls().last().args@[i2] == rev@[i2]);
                    assert(rev@[i2] == raws@[n - 1 - i2]);
                    assert(crate::smart_variant::raw_encodes(
                        raws@[n - 1 - i2],
                        params@[n - 1 - i2]@,
                        env1.heap,
                    ));
                }
                match outcome {
                    Option::Some(DispOutcome::Failure { hresult, description, arg_err }) => {
                        if reply.excep != 0 {
                            assert(env3.heap.contents(reply.excep) == encode16(description@));
                            crate::utf16::lemma_utf16_round_trip(description@);
                        }
                    },
                    _ => {},
                }
                lemma_same_objects_trans(o, env1, env2);
                o.lemma_handler_outcome_ok(self.spec_ptr(), member_dispid, flags);
                match outcome {
                    Option::Some(DispOutcome::Retv(v)) => {
                        match v {
                            SmartVariant::Text(t) => {
                                if encode16(t@).len() <= 0xFFFF_FFFF && env1.heap.can_alloc(
                                    encode16(t@).len(),
                                ) {
                                    assert(false);
                                }
                                assert(env1.heap.used() == o.heap.used() + args_alloc_bytes(
                                    params@,
                                ));
                            },
                            SmartVariant::IDispatch(q) => {
                                if q != 0 {
                                    assert(o.is_object(q));
                                    assert(env1.ref_count(q) == o.ref_count(q));
                                }
                                if q == 0 || env1.ref_count(q) < 0xFFFF_FFFFu32 {
                                    assert(false);
                                }
                            },
                            SmartVariant::IUnknown(q) => {
                                if q != 0 {
                                    assert(o.is_object(q));
                                    assert(env1.ref_count(q) == o.ref_count(q));
                                }
                                if q == 0 || env1.ref_count(q) < 0xFFFF_FFFFu32 {
                                    assert(false);
                                }
                            },
                            _ => {
                                assert(false);
                            },
                        }
                    },
                    _ => {},
                }
                o.lemma_null_dead();
                env.lemma_null_dead();
                assert forall|h: usize| h != reply.excep implies ((
                #[trigger] env.heap.is_live(h)) == env3.heap.is_live(h)) && (env3.heap.is_live(h)
                    ==> env.heap.contents(h) == env3.heap.contents(h)) by {
                    assert(env.heap.is_live(h) == env3.heap.is_live(h));
                }
                assert forall|h: usize| env1.heap.is_live(h) implies (
                #[trigger] env2.heap.is_live(h)) && env2.heap.contents(h) == env1.heap.contents(
                    h,
                ) by {
                    match outcome {
                        Option::None => {
                            assert(env2.heap == env1.heap);
                        },
                        Option::Some(DispOutcome::Failure { hresult, description, arg_err }) => {
                            let units = encode16(description@);
                            if units.len() <= 0xFFFF_FFFF && env1.heap.can_alloc(units.len()) {
                                assert(reply.excep != 0 && !env1.heap.is_live(reply.excep));
                                assert(h != reply.excep);
                            } else {
                                assert(env2.heap == env1.heap);
                            }
                        },
                        Option::Some(DispOutcome::Retv(v)) => {
                            match v {
                                SmartVariant::Text(t) => {
                                    if encode16(t@).len() <= 0xFFFF_FFFF && env1.heap.can_alloc(
                                        encode16(t@).len(),
                                    ) {
                                        assert(false);
                                    } else {
                                        assert(env2.heap == env1.heap);
                                    }
                                },
                                SmartVariant::IDispatch(q) => {
                                    assert(env2.heap == env1.heap);
                                },
                                SmartVariant::IUnknown(q) => {
                                    assert(env2.heap == env1.heap);
                                },
                                _ => {
                                    assert(false);
                                },
                            }
                        },
                    }
                }
                assert forall|h: usize| (#[trigger] env2.heap.is_live(h)) implies
                    env1.heap.is_live(h) || (h == reply.excep && reply.excep != 0) by {
                    match outcome {
                        Option::None => {
                            assert(env2.heap == env1.heap);
                        },
                        Option::Some(DispOutcome::Failure { hresult, description, arg_err }) => {
                            let units = encode16(description@);
                            if units.len() <= 0xFFFF_FFFF && env1.heap.can_alloc(units.len()) {
                                if h != reply.excep {
                                    assert(env2.heap.is_live(h) == env1.heap.is_live(h));
                                }
                            } else {
                                assert(env2.heap == env1.heap);
                            }
                        },
                        Option::Some(DispOutcome::Retv(v)) => {
                            match v {
                                SmartVariant::Text(t) => {
                                    if encode16(t@).len() <= 0xFFFF_FFFF && env1.heap.can_alloc(
                                        encode16(t@).len(),
                                    ) {
                                        assert(false);
                                    } else {
                                        assert(env2.heap == env1.heap);
                                    }
                                },
                                SmartVariant::IDispatch(q) => {
                                    assert(env2.heap == env1.heap);
                                },
                                SmartVariant::IUnknown(q) => {
                                    assert(env2.heap == env1.heap);
                                },
                                _ => {
                                    assert(false);
                                },
                            }
                        },
                    }
                }
                assert(reply.excep != 0 ==> !env1.heap.is_live(reply.excep)) by {
                    if reply.excep != 0 {
                        match outcome {
                            Option::Some(DispOutcome::Failure { hresult, description, arg_err }) => {},
                            _ => {},
                        }
                    }
                }
                assert forall|q: usize| o.is_object(q) implies (#[trigger] env.ref_count(q))
                    == o.ref_count(q) && (#[trigger] env.script_of(q)) == o.script_of(q) by {
                    assert(env1.ref_count(q) == o.ref_count(q));
                    assert(env2.ref_count(q) == env1.ref_count(q));
                    assert(env3.ref_count(q) == env2.ref_count(q));
                    assert(env1.script_of(q) == o.script_of(q));
                    assert(env2.script_of(q) == env1.script_of(q));
                    assert(env3.script_of(q) == env2.script_of(q));
                }
                lemma_invoke_heap_restored(o, env1, env2, env3, *env, raws@, reply.excep);
            }
            let out: Result<SmartVariant, (i32, String, u32)> = Err(
                (reply.hresult, msg, reply.arg_err),
            );
            proof {
                assert(invoke_post(
                    o,
                    *env,
                    self.spec_ptr(),
                    member_dispid,
                    lcid,
                    flags,
                    params@,
                    out,
                ));
            }
            out
        }
    }

    /// Resolves one method name and invokes it as a method call; a failed
    /// resolution is surfaced as its status with a fixed diagnostic naming
    /// the resolution step and argument index zero, without invoking.
    pub fn call(&self, env: &mut ComEnv, method: &str, params: &Vec<SmartVariant>) -> (r: Result<
        SmartVariant,
        (i32, String, u32),
    >)
        requires
            old(env).wf(),
            self.valid(*old(env)),
        ensures
            final(env).wf(),
            match resolve_name_spec(old(env).script_of(self.spec_ptr()).names@, method@) {
                Option::None => (r matches Err(e) && e.0 == DISP_E_UNKNOWNNAME && e.1@
                    == "get_ids_of_names()"@ && e.2 == 0) && *final(env) == *old(env),
                Option::Some(id) => invoke_post(
                    *old(env),
                    *final(env),
                    self.spec_ptr(),
                    id,
                    LOCALE_USER_DEFAULT,
                    DISPATCH_METHOD,
                    params@,
                    r,
                ),
            },
    {
        let mut names: Vec<String> = Vec::new();
        names.push(<String as vstd::string::StringExecFns>::from_str(method));
        let (ids, hr) = self.get_ids_of_names(env, &names, LOCALE_USER_DEFAULT);
        proof {
            let table = env.script_of(self.spec_ptr()).names@;
            assert(names@[0]@ == method@);
            if resolve_name_spec(table, method@) is Some {
                assert forall|i: int| 0 <= i < names@.len() implies resolve_name_spec(
                    table,
                    (#[trigger] names@[i])@,
                ) is Some by {
                    assert(i == 0);
                }
                assert(hr == S_OK);
                assert(ids@[0] == resolve_name_spec(table, method@)->0);
            } else {
                assert(!(resolve_name_spec(table, (names@[0])@) is Some));
                assert(hr == DISP_E_UNKNOWNNAME);
            }
        }
        if hr == S_OK {
            self.invoke(env, ids[0], LOCALE_USER_DEFAULT, DISPATCH_METHOD, params)
        } else {
            Err((hr, <String as vstd::string::StringExecFns>::from_str("get_ids_of_names()"), 0))
        }
    }

    /// Resolves one property name and reads it: a property-get invocation
    /// with no arguments; a failed resolution is surfaced as in
    /// [`Self::call`].
    pub fn get(&self, env: &mut ComEnv, property: &str) -> (r: Result<
        SmartVariant,
        (i32, String, u32),
    >)
        requires
            old(env).wf(),
            self.valid(*old(env)),
        ensures
            final(env).wf(),
            match resolve_name_spec(old(env).script_of(self.spec_ptr()).names@, property@) {
                Option::None => (r matches Err(e) && e.0 == DISP_E_UNKNOWNNAME && e.1@
                    == "get_ids_of_names()"@ && e.2 == 0) && *final(env) == *old(env),
                Option::Some(id) => invoke_post(
                    *old(env),
                    *final(env),
                    self.spec_ptr(),
                    id,
                    LOCALE_USER_DEFAULT,
                    DISPATCH_PROPERTYGET,
                    Seq::<SmartVariant>::empty(),
                    r,
                ),
            },
    {
        let mut names: Vec<String> = Vec::new();
        names.push(<String as vstd::string::StringExecFns>::from_str(property));
        let (ids, hr) = self.get_ids_of_names(env, &names, LOCALE_USER_DEFAULT);
        proof {
            let table = env.script_of(self.spec_ptr()).names@;
            assert(names@[0]@ == property@);
            if resolve_name_spec(table, property@) is Some {
                assert forall|i: int| 0 <= i < names@.len() implies resolve_name_spec(
                    table,
                    (#[trigger] names@[i])@,
                ) is Some by {
                    assert(i == 0);
                }
                assert(hr == S_OK);
                assert(ids@[0] == resolve_name_spec(table, property@)->0);
            } else {
                assert(!(resolve_name_spec(table, (names@[0])@) is Some));
                assert(hr == DISP_E_UNKNOWNNAME);
            }
        }
        if hr == S_OK {
            let args: Vec<SmartVariant> = Vec::new();
            self.invoke(env, ids[0], LOCALE_USER_DEFAULT, DISPATCH_PROPERTYGET, &args)
        } else {
            Err((hr, <String as vstd::string::StringExecFns>::from_str("get_ids_of_names()"), 0))
        }
    }

    /// Resolves one property name and writes it: a property-put invocation
    /// with the value as the sole argument; a failed resolution is surfaced
    /// as in [`Self::call`].
    pub fn put(&self, env: &mut ComEnv, property: &str, value: SmartVariant) -> (r: Result<
        SmartVariant,
        (i32, String, u32),
    >)
        requires
            old(env).wf(),
            self.valid(*old(env)),
        ensures
            final(env).wf(),
            match resolve_name_spec(old(env).script_of(self.spec_ptr()).names@, property@) {
                Option::None => (r matches Err(e) && e.0 == DISP_E_UNKNOWNNAME && e.1@
                    == "get_ids_of_names()"@ && e.2 == 0) && *final(env) == *old(env),
                Option::Some(id) => invoke_post(
                    *old(env),
                    *final(env),
                    self.spec_ptr(),
                    id,
                    LOCALE_USER_DEFAULT,
                    DISPATCH_PROPERTYPUT,
                    seq![value],
                    r,
                ),
            },
    {
        let mut names: Vec<String> = Vec::new();
        names.push(<String as vstd::string::StringExecFns>::from_str(property));
        let (ids, hr) = self.get_ids_of_names(env, &names, LOCALE_USER_DEFAULT);
        proof {
            let table = env.script_of(self.spec_ptr()).names@;
            assert(names@[0]@ == property@);
            if resolve_name_spec(table, property@) is Some {
                assert forall|i: int| 0 <= i < names@.len() implies resolve_name_spec(
                    table,
                    (#[trigger] names@[i])@,
                ) is Some by {
                    assert(i == 0);
                }
                assert(hr == S_OK);
                assert(ids@[0] == resolve_name_spec(table, property@)->0);
            } else {
                assert(!(resolve_name_spec(table, (names@[0])@) is Some));
                assert(hr == DISP_E_UNKNOWNNAME);
            }
        }
        if hr == S_OK {
            let mut args: Vec<SmartVariant> = Vec::new();
            args.push(value);
            proof {
                assert(args@ =~= seq![value]);
            }
            self.invoke(env, ids[0], LOCALE_USER_DEFAULT, DISPATCH_PROPERTYPUT, &args)
        } else {
            Err((hr, <String as vstd::string::StringExecFns>::from_str("get_ids_of_names()"), 0))
        }
    }
}

/// A handle value occurs among the text arguments of a converted list.
pub open spec fn is_text_handle(raws: Seq<RawVariant>, h: usize) -> bool {
    exists|k: int|
        0 <= k < raws.len() && (#[trigger] raws[k]).vt == VT_BSTR && raws[k].data as usize == h
}

/// Converting one more argument takes its own bytes on top of the list's.
proof fn lemma_args_alloc_bytes_push(s: Seq<SmartVariant>, v: SmartVariant)
    ensures
        args_alloc_bytes(s.push(v)) == args_alloc_bytes(s) + arg_bytes(v),
    decreases s.len(),
{
    assert(args_alloc_bytes(s.push(v)) == arg_bytes(s.push(v)[0]) + args_alloc_bytes(
        s.push(v).drop_first(),
    ));
    if s.len() == 0 {
        assert(s.push(v)[0] == v);
        assert(s.push(v).drop_first() =~= Seq::<SmartVariant>::empty());
        assert(args_alloc_bytes(s.push(v).drop_first()) == 0);
    } else {
        assert(s.push(v)[0] == s[0]);
        assert(s.push(v).drop_first() =~= s.drop_first().push(v));
        lemma_args_alloc_bytes_push(s.drop_first(), v);
        assert(args_alloc_bytes(s) == arg_bytes(s[0]) + args_alloc_bytes(s.drop_first()));
    }
}

/// Frees the string buffers a converted argument list allocated; every other
/// handle, and everything else in the environment, stays as it was.
/// A handle value occurs among the text arguments of the first `i` entries.
pub open spec fn is_text_handle_upto(raws: Seq<RawVariant>, i: int, h: usize) -> bool {
    exists|k: int|
        0 <= k < i && k < raws.len() && (#[trigger] raws[k]).vt == VT_BSTR && raws[k].data as usize
            == h
}

/// Extending the freed prefix by one entry extends the freed handles by that
/// entry's handle when it is a text entry.
proof fn lemma_text_handle_step(raws: Seq<RawVariant>, i: int, h: usize)
    requires
        0 <= i < raws.len(),
    ensures
        is_text_handle_upto(raws, i + 1, h) == (is_text_handle_upto(raws, i, h) || (raws[i].vt
            == VT_BSTR && raws[i].data as usize == h)),
{
    if is_text_handle_upto(raws, i + 1, h) {
        let k = choose|k: int|
            0 <= k < i + 1 && k < raws.len() && (#[trigger] raws[k]).vt == VT_BSTR && raws[k].data
                as usize == h;
        if k < i {
            assert(is_text_handle_upto(raws, i, h));
        }
    }
    if is_text_handle_upto(raws, i, h) {
        let k = choose|k: int|
            0 <= k < i && k < raws.len() && (#[trigger] raws[k]).vt == VT_BSTR && raws[k].data
                as usize == h;
        assert(is_text_handle_upto(raws, i + 1, h));
    }
    if raws[i].vt == VT_BSTR && raws[i].data as usize == h {
        assert(is_text_handle_upto(raws, i + 1, h));
    }
}

/// The whole list's text handles are those of its full prefix.
proof fn lemma_text_handle_full(raws: Seq<RawVariant>, h: usize)
    ensures
        is_text_handle(raws, h) == is_text_handle_upto(raws, raws.len() as int, h),
{
}

/// Frees the string buffers a converted argument list allocated; every other
/// handle, and everything else in the environment, stays as it was.
fn free_arg_texts(env: &mut ComEnv, raws: &Vec<RawVariant>)
    requires
        old(env).wf(),
        forall|k: int|
            0 <= k < raws@.len() && (#[trigger] raws@[k]).vt == VT_BSTR ==> raws@[k].data != 0
                && raws@[k].data <= usize::MAX && old(env).heap.is_live(raws@[k].data as usize),
        forall|k1: int, k2: int|
            0 <= k1 < k2 < raws@.len() && (#[trigger] raws@[k1]).vt == VT_BSTR && (
            #[trigger] raws@[k2]).vt == VT_BSTR ==> raws@[k1].data != raws@[k2].data,
    ensures
        final(env).wf(),
        final(env).heap.capacity() == old(env).heap.capacity(),
        final(env).heap.used() == old(env).heap.used(),
        forall|k: int|
            0 <= k < raws@.len() && (#[trigger] raws@[k]).vt == VT_BSTR ==> !final(env).heap.is_live(raws@[k].data as usize),
        forall|h: usize|
            !is_text_handle(raws@, h) ==> ((#[trigger] final(env).heap.is_live(h)) == old(env).heap.is_live(h)) && (old(env).heap.is_live(h) ==> final(env).heap.contents(h) == old(env).heap.contents(h)),
        old(env).same_objects(*final(env)),
        old(env).same_classes(*final(env)),
        final(env).locks() == old(env).locks(),
        final(env).calls() == old(env).calls(),
{
    let ghost e0 = *old(env);
    let m = raws.len();
    let mut i: usize = 0;
    while i < m
        invariant
            i <= m,
            m == raws@.len(),
            env.wf(),
            e0.wf(),
            env.heap.capacity() == e0.heap.capacity(),
            env.heap.used() == e0.heap.used(),
            forall|k: int|
                0 <= k < raws@.len() && (#[trigger] raws@[k]).vt == VT_BSTR ==> raws@[k].data != 0
                    && raws@[k].data <= usize::MAX && e0.heap.is_live(raws@[k].data as usize),
            forall|k1: int, k2: int|
                0 <= k1 < k2 < raws@.len() && (#[trigger] raws@[k1]).vt == VT_BSTR && (
                #[trigger] raws@[k2]).vt == VT_BSTR ==> raws@[k1].data != raws@[k2].data,
            forall|h: usize|
                (#[trigger] env.heap.is_live(h)) == (e0.heap.is_live(h) && !is_text_handle_upto(
                    raws@,
                    i as int,
                    h,
                )),
            forall|h: usize|
                env.heap.is_live(h) ==> (#[trigger] env.heap.contents(h)) == e0.heap.contents(h),
            e0.same_objects(*env),
            e0.same_classes(*env),
            env.locks() == e0.locks(),
            env.calls() == e0.calls(),
        decreases m - i,
    {
        let raw = raws[i];
        let ghost env_before = *env;
        if raw.vt == VT_BSTR {
            proof {
                assert(raws@[i as int].vt == VT_BSTR);
                assert(!is_text_handle_upto(raws@, i as int, raw.data as usize)) by {
                    if is_text_handle_upto(raws@, i as int, raw.data as usize) {
                        let k = choose|k: int|
                            0 <= k < i && k < raws@.len() && (#[trigger] raws@[k]).vt == VT_BSTR
                                && raws@[k].data as usize == raw.data as usize;
                        assert(raws@[k].data != raws@[i as int].data);
                        assert(raws@[k].data <= usize::MAX && raws@[i as int].data <= usize::MAX);
                    }
                }
                assert(env.heap.is_live(raw.data as usize));
            }
            env.free_bstr(raw.data as usize);
            proof {
                lemma_same_objects_trans(e0, env_before, *env);
                lemma_same_classes_trans(e0, env_before, *env);
                assert forall|h: usize| (#[trigger] env.heap.is_live(h)) == (e0.heap.is_live(h)
                    && !is_text_handle_upto(raws@, i + 1, h)) by {
                    lemma_text_handle_step(raws@, i as int, h);
                    if h == raw.data as usize {
                        assert(!env.heap.is_live(h));
                        assert(is_text_handle_upto(raws@, i + 1, h));
                    } else {
                        assert(env.heap.is_live(h) == env_before.heap.is_live(h));
                    }
                }
                assert forall|h: usize| env.heap.is_live(h) implies (
                #[trigger] env.heap.contents(h)) == e0.heap.contents(h) by {
                    assert(h != raw.data as usize);
                    assert(env_before.heap.is_live(h));
                    assert(env_before.heap.contents(h) == e0.heap.contents(h));
                    assert(env.heap.contents(h) == env_before.heap.contents(h));
                }
            }
        } else {
            proof {
                assert forall|h: usize| (#[trigger] env.heap.is_live(h)) == (e0.heap.is_live(h)
                    && !is_text_handle_upto(raws@, i + 1, h)) by {
                    lemma_text_handle_step(raws@, i as int, h);
                }
            }
        }
        i = i + 1;
    }
    proof {
        assert forall|k: int|
            0 <= k < raws@.len() && (#[trigger] raws@[k]).vt == VT_BSTR implies !env.heap.is_live(
            raws@[k].data as usize,
        ) by {
            assert(is_text_handle_upto(raws@, m as int, raws@[k].data as usize));
        }
        assert forall|h: usize| !is_text_handle(raws@, h) implies ((
        #[trigger] env.heap.is_live(h)) == e0.heap.is_live(h)) && (e0.heap.is_live(h)
            ==> env.heap.contents(h) == e0.heap.contents(h)) by {
            lemma_text_handle_full(raws@, h);
        }
    }
}

/// Chains the heap states of a failed invocation — arguments converted,
/// foreign call answered, argument buffers freed, description taken — back to
/// the starting heap: the live handles and their contents end exactly as they
/// began.
proof fn lemma_invoke_heap_restored(
    o: ComEnv,
    env1: ComEnv,
    env2: ComEnv,
    env3: ComEnv,
    env4: ComEnv,
    raws: Seq<RawVariant>,
    excep: usize,
)
    requires
        forall|h: usize|
            #![trigger o.heap.is_live(h)]
            #![trigger env1.heap.is_live(h)]
            o.heap.is_live(h) ==> env1.heap.is_live(h) && env1.heap.contents(h)
                == o.heap.contents(h),
        forall|h: usize|
            #![trigger env1.heap.is_live(h)]
            env1.heap.is_live(h) && !o.heap.is_live(h) ==> is_text_handle(raws, h),
        forall|k: int|
            0 <= k < raws.len() && (#[trigger] raws[k]).vt == VT_BSTR ==> raws[k].data != 0
                && raws[k].data <= usize::MAX && !o.heap.is_live(raws[k].data as usize),
        forall|h: usize|
            #![trigger env1.heap.is_live(h)]
            #![trigger env2.heap.is_live(h)]
            env1.heap.is_live(h) ==> env2.heap.is_live(h) && env2.heap.contents(h)
                == env1.heap.contents(h),
        forall|h: usize|
            #![trigger env2.heap.is_live(h)]
            env2.heap.is_live(h) ==> env1.heap.is_live(h) || (h == excep && excep != 0),
        excep != 0 ==> !env1.heap.is_live(excep),
        forall|k: int|
            0 <= k < raws.len() && (#[trigger] raws[k]).vt == VT_BSTR ==> !env3.heap.is_live(
                raws[k].data as usize,
            ),
        forall|h: usize|
            #![trigger env2.heap.is_live(h)]
            #![trigger env3.heap.is_live(h)]
            !is_text_handle(raws, h) ==> (env3.heap.is_live(h) == env2.heap.is_live(h)) && (
            env2.heap.is_live(h) ==> env3.heap.contents(h) == env2.heap.contents(h)),
        excep != 0 ==> !env4.heap.is_live(excep),
        forall|h: usize|
            #![trigger env3.heap.is_live(h)]
            #![trigger env4.heap.is_live(h)]
            h != excep ==> (env4.heap.is_live(h) == env3.heap.is_live(h)) && (env3.heap.is_live(h)
                ==> env4.heap.contents(h) == env3.heap.contents(h)),
        !o.heap.is_live(0),
        !env4.heap.is_live(0),
    ensures
        forall|h: usize|
            ((#[trigger] env4.heap.is_live(h)) == o.heap.is_live(h)) && (o.heap.is_live(h)
                ==> env4.heap.contents(h) == o.heap.contents(h)),
{
    assert forall|h: usize|
        ((#[trigger] env4.heap.is_live(h)) == o.heap.is_live(h)) && (o.heap.is_live(h)
            ==> env4.heap.contents(h) == o.heap.contents(h)) by {
        if o.heap.is_live(h) {
            assert(h != 0);
            assert(env1.heap.is_live(h) && env1.heap.contents(h) == o.heap.contents(h));
            assert(env2.heap.is_live(h) && env2.heap.contents(h) == o.heap.contents(h));
            assert(!is_text_handle(raws, h)) by {
                if is_text_handle(raws, h) {
                    let k = choose|k: int|
                        0 <= k < raws.len() && (#[trigger] raws[k]).vt == VT_BSTR && raws[k].data
                            as usize == h;
                    assert(!o.heap.is_live(h));
                }
            }
            assert(env3.heap.is_live(h) && env3.heap.contents(h) == o.heap.contents(h));
            assert(h != excep);
            assert(env4.heap.is_live(h) && env4.heap.contents(h) == o.heap.contents(h));
        } else {
            if env4.heap.is_live(h) {
                assert(h != 0);
                assert(h != excep);
                assert(env3.heap.is_live(h));
                assert(!is_text_handle(raws, h)) by {
                    if is_text_handle(raws, h) {
                        let k = choose|k: int|
                            0 <= k < raws.len() && (#[trigger] raws[k]).vt == VT_BSTR
                                && raws[k].data as usize == h;
                        assert(!env3.heap.is_live(h));
                    }
                }
                assert(env2.heap.is_live(h));
                assert(env1.heap.is_live(h));
                assert(is_text_handle(raws, h));
            }
        }
    }
}

} // verus!
