//! The factory capability on an object handle: creating instances through a
//! class object obtained from activation.

use vstd::prelude::*;

verus! {

use crate::auto_com_interface::AutoCOMInterface;
use crate::com_env::ComEnv;
use crate::com_env::created_instance_post;
use crate::com_interface::ComInterface;
use crate::com_interface::IClassFactory;
use crate::hresult::CLASS_E_NOAGGREGATION;
use crate::hresult::E_FAIL;
use crate::hresult::E_NOINTERFACE;
use crate::hresult::E_POINTER;
use crate::hresult::REGDB_E_CLASSNOTREG;
use crate::hresult::S_OK;

impl AutoCOMInterface<IClassFactory> {
    /// Asks the factory to create one instance of its class for the requested
    /// capability, wrapped with the one fresh count the instance starts with.
    /// Aggregation is not supported: a non-null outer pointer is refused; an
    /// object that is no factory fails plainly.
    pub fn create_factory_instance<U: ComInterface>(&self, env: &mut ComEnv, unk_outer: usize) -> (r:
        Result<AutoCOMInterface<U>, i32>)
        requires
            old(env).wf(),
            self.valid(*old(env)),
        ensures
            final(env).wf(),
            match old(env).script_of(self.spec_ptr()).factory_clsid {
                Option::None => r == Err::<AutoCOMInterface<U>, i32>(E_FAIL) && *final(env) == *old(
                    env,
                ),
                Option::Some(clsid) => {
                    if !old(env).class_registered(clsid) {
                        r == Err::<AutoCOMInterface<U>, i32>(REGDB_E_CLASSNOTREG) && *final(env)
                            == *old(env)
                    } else if unk_outer != 0 {
                        r == Err::<AutoCOMInterface<U>, i32>(CLASS_E_NOAGGREGATION) && *final(env)
                            == *old(env)
                    } else if !old(env).class_script(clsid).iids@.contains(U::spec_iid()) {
                        r == Err::<AutoCOMInterface<U>, i32>(E_NOINTERFACE) && *final(env) == *old(
                            env,
                        )
                    } else {
                        &&& r matches Ok(h) && h.spec_ptr() == old(env).num_objects() + 1
                        &&& r->Ok_0.valid(*final(env))
                        &&& created_instance_post(
                            *old(env),
                            *final(env),
                            Ok(r->Ok_0.spec_ptr()),
                            old(env).class_script(clsid),
                        )
                    }
                },
            },
    {
        match env.factory_create_prim(self.as_iunknown_ptr(), unk_outer, U::iid()) {
            Ok(p) => {
                match AutoCOMInterface::<U>::try_from(p) {
                    Ok(h) => Ok(h),
                    Err(_) => {
                        proof {
                            assert(false);
                        }
                        Err(E_POINTER)
                    },
                }
            },
            Err(code) => Err(code),
        }
    }

    /// Locks or unlocks the class object's server; the model keeps one
    /// saturating lock count for the whole environment and always succeeds.
    pub fn lock_server(&self, env: &mut ComEnv, f_lock: bool) -> (r: i32)
        requires
            old(env).wf(),
            self.valid(*old(env)),
        ensures
            final(env).wf(),
            r == S_OK,
            final(env).locks() == if f_lock {
                if old(env).locks() < 0xFFFF_FFFFu32 {
                    (old(env).locks() + 1) as u32
                } else {
                    old(env).locks()
                }
            } else {
                if old(env).locks() > 0 {
                    (old(env).locks() - 1) as u32
                } else {
                    0u32
                }
            },
            old(env).same_objects(*final(env)),
            final(env).heap == old(env).heap,
            old(env).same_classes(*final(env)),
            final(env).calls() == old(env).calls(),
    {
        env.lock_server_prim(f_lock)
    }
}

} // verus!
