//! Tests of the object handle, activation and the dynamic-dispatch protocol.

#![allow(non_snake_case)]

use rusty_winapi::auto_com_interface::AutoCOMInterface;
use rusty_winapi::com_env::ComEnv;
use rusty_winapi::com_env::DispHandler;
use rusty_winapi::com_env::DispOutcome;
use rusty_winapi::com_env::NameEntry;
use rusty_winapi::com_env::ObjectScript;
use rusty_winapi::com_interface::IClassFactory;
use rusty_winapi::com_interface::IDispatch;
use rusty_winapi::com_interface::ITypeInfo;
use rusty_winapi::com_interface::IUnknown;
use rusty_winapi::com_interface::IID_ICLASSFACTORY;
use rusty_winapi::com_interface::IID_IDISPATCH;
use rusty_winapi::com_interface::IID_IUNKNOWN;
use rusty_winapi::hresult::CLASS_E_NOAGGREGATION;
use rusty_winapi::hresult::CLSCTX_ALL;
use rusty_winapi::hresult::DISPATCH_METHOD;
use rusty_winapi::hresult::DISPATCH_PROPERTYGET;
use rusty_winapi::hresult::DISPATCH_PROPERTYPUT;
use rusty_winapi::hresult::DISP_E_BADINDEX;
use rusty_winapi::hresult::DISP_E_MEMBERNOTFOUND;
use rusty_winapi::hresult::DISP_E_UNKNOWNNAME;
use rusty_winapi::hresult::E_FAIL;
use rusty_winapi::hresult::E_NOINTERFACE;
use rusty_winapi::hresult::E_OUTOFMEMORY;
use rusty_winapi::hresult::E_POINTER;
use rusty_winapi::hresult::LOCALE_USER_DEFAULT;
use rusty_winapi::hresult::REGDB_E_CLASSNOTREG;
use rusty_winapi::hresult::S_OK;
use rusty_winapi::hresult::SUCCEEDED;
use rusty_winapi::smart_variant::RawVariant;
use rusty_winapi::smart_variant::SmartVariant;
use rusty_winapi::smart_variant::VT_BOOL;
use rusty_winapi::smart_variant::VT_I4;
use rusty_winapi::smart_variant::VT_UI1;

fn base_script() -> ObjectScript {
    ObjectScript {
        iids: vec![IID_IUNKNOWN, IID_IDISPATCH],
        qi_null: vec![],
        names: vec![],
        handlers: vec![],
        type_info_count: 0,
        type_info: 0,
        factory_clsid: None,
    }
}

#[test]
fn test_wrap_null_fails_and_unwrap_keeps_count() {
    assert!(AutoCOMInterface::<IUnknown>::try_from(0).is_err());

    let mut env = ComEnv::new(1 << 12);
    let p = env.add_object(base_script()).unwrap();
    let before = env.ref_count_of(p);
    let h = AutoCOMInterface::<IUnknown>::try_from(p).unwrap();
    assert_eq!(p, h.as_iunknown_ptr());
    let raw = h.unwrap();
    assert_eq!(p, raw);
    assert_eq!(before, env.ref_count_of(p));
}

#[test]
fn test_clone_then_drop_both_nets_zero() {
    let mut env = ComEnv::new(1 << 12);
    let p = env.add_object(base_script()).unwrap();
    let h = AutoCOMInterface::<IUnknown>::try_from(p).unwrap();
    let before_cloning = env.ref_count_of(p);
    let h2 = h.clone(&mut env);
    assert_eq!(before_cloning + 1, env.ref_count_of(p));
    assert!(h == h2);
    h2.release(&mut env);
    assert_eq!(before_cloning, env.ref_count_of(p));
    h.release(&mut env);
    assert_eq!(before_cloning - 1, env.ref_count_of(p));
}

#[test]
fn test_query_interface() {
    let mut env = ComEnv::new(1 << 12);
    let mut script = base_script();
    script.qi_null = vec![IID_ICLASSFACTORY];
    let p = env.add_object(script).unwrap();
    let h = AutoCOMInterface::<IUnknown>::try_from(p).unwrap();

    // A supported capability comes back on the same pointer with a fresh count.
    let before = env.ref_count_of(p);
    let d: AutoCOMInterface<IDispatch> = h.query_interface(&mut env).unwrap();
    assert_eq!(p, d.as_iunknown_ptr());
    assert_eq!(before + 1, env.ref_count_of(p));

    // An unsupported one propagates the foreign code; the handle's pointer is
    // unchanged and no count moves.
    let before = env.ref_count_of(p);
    match h.query_interface::<ITypeInfo>(&mut env) {
        Ok(_) => panic!("capability must be unsupported"),
        Err(code) => assert_eq!(E_NOINTERFACE, code),
    }
    assert_eq!(p, h.as_iunknown_ptr());
    assert_eq!(before, env.ref_count_of(p));

    // Success with a null pointer is a pointer-validity error of its own.
    match h.query_interface::<IClassFactory>(&mut env) {
        Ok(_) => panic!("corrupt answer must be refused"),
        Err(code) => assert_eq!(E_POINTER, code),
    }
}

#[test]
fn test_name_resolution_partial_batch() {
    let mut env = ComEnv::new(1 << 12);
    let mut script = base_script();
    script.names = vec![
        NameEntry { name: String::from("Alpha"), dispid: 2 },
        NameEntry { name: String::from("Beta"), dispid: 3 },
    ];
    let p = env.add_object(script).unwrap();
    let d = AutoCOMInterface::<IDispatch>::try_from(p).unwrap();

    let names = vec![String::from("Alpha"), String::from("Missing"), String::from("Beta")];
    let (ids, hr) = d.get_ids_of_names(&env, &names, LOCALE_USER_DEFAULT);
    assert_eq!(vec![2, -1, 3], ids);
    assert_eq!(DISP_E_UNKNOWNNAME, hr);

    let names = vec![String::from("Beta"), String::from("Alpha")];
    let (ids, hr) = d.get_ids_of_names(&env, &names, LOCALE_USER_DEFAULT);
    assert_eq!(vec![3, 2], ids);
    assert_eq!(S_OK, hr);
}

#[test]
fn test_property_get_count_returns_int4_zero() {
    let mut env = ComEnv::new(1 << 16);
    let mut script = base_script();
    script.names = vec![NameEntry { name: String::from("Count"), dispid: 7 }];
    script.handlers = vec![DispHandler {
        dispid: 7,
        flags: DISPATCH_PROPERTYGET,
        outcome: DispOutcome::Retv(SmartVariant::Int4(0)),
    }];
    let p = env.add_object(script).unwrap();
    let d = AutoCOMInterface::<IDispatch>::try_from(p).unwrap();
    let r = d.get(&mut env, "Count").unwrap();
    assert_eq!(SmartVariant::Int4(0), r);
}

#[test]
fn test_invoke_reverses_arguments_and_frees_buffers() {
    let mut env = ComEnv::new(1 << 16);
    let mut script = base_script();
    script.handlers = vec![DispHandler {
        dispid: 9,
        flags: DISPATCH_METHOD,
        outcome: DispOutcome::Retv(SmartVariant::Empty),
    }];
    let p = env.add_object(script).unwrap();
    let d = AutoCOMInterface::<IDispatch>::try_from(p).unwrap();

    let live = env.heap.live_count();
    let args = vec![
        SmartVariant::Int4(1),
        SmartVariant::Text(String::from("mid")),
        SmartVariant::Bool(true),
        SmartVariant::UInt1(7),
    ];
    let r = d.invoke(&mut env, 9, LOCALE_USER_DEFAULT, DISPATCH_METHOD, &args).unwrap();
    assert_eq!(SmartVariant::Empty, r);
    // every buffer the conversion allocated is freed again
    assert_eq!(live, env.heap.live_count());

    // the foreign side received the arguments right-to-left
    assert_eq!(1, env.calls_len());
    let rec = env.call_args(0);
    assert_eq!(4, rec.len());
    assert_eq!(RawVariant { vt: VT_UI1, data: 7 }, rec[0]);
    assert_eq!(RawVariant { vt: VT_BOOL, data: 0xFFFF }, rec[1]);
    assert_eq!(rec[2].vt, rusty_winapi::smart_variant::VT_BSTR);
    assert_eq!(RawVariant { vt: VT_I4, data: 1 }, rec[3]);
    let (target, dispid, lcid, flags) = env.call_meta(0);
    assert_eq!(p, target);
    assert_eq!(9, dispid);
    assert_eq!(LOCALE_USER_DEFAULT, lcid);
    assert_eq!(DISPATCH_METHOD, flags);
}

#[test]
fn test_invoke_failure_carries_decoded_description() {
    let mut env = ComEnv::new(1 << 16);
    let mut script = base_script();
    script.names = vec![NameEntry { name: String::from("Explode"), dispid: 4 }];
    script.handlers = vec![DispHandler {
        dispid: 4,
        flags: DISPATCH_METHOD,
        outcome: DispOutcome::Failure {
            hresult: E_FAIL,
            description: String::from("boom"),
            arg_err: 2,
        },
    }];
    let p = env.add_object(script).unwrap();
    let d = AutoCOMInterface::<IDispatch>::try_from(p).unwrap();

    let live = env.heap.live_count();
    let args = vec![SmartVariant::Int4(1), SmartVariant::Text(String::from("x"))];
    let err = d.call(&mut env, "Explode", &args).unwrap_err();
    assert_eq!(E_FAIL, err.0);
    assert_eq!("boom", err.1);
    assert_eq!(2, err.2);
    // the description's handle and the argument buffers are all freed
    assert_eq!(live, env.heap.live_count());
}

#[test]
fn test_invoke_member_not_found_and_unresolved_name() {
    let mut env = ComEnv::new(1 << 16);
    let mut script = base_script();
    script.names = vec![NameEntry { name: String::from("Known"), dispid: 5 }];
    let p = env.add_object(script).unwrap();
    let d = AutoCOMInterface::<IDispatch>::try_from(p).unwrap();

    // The name resolves but no member answers a method call.
    let err = d.call(&mut env, "Known", &vec![]).unwrap_err();
    assert_eq!(DISP_E_MEMBERNOTFOUND, err.0);
    assert_eq!("", err.1);
    assert_eq!(0, err.2);

    // An unresolved name is surfaced as the resolution step's failure.
    let err = d.get(&mut env, "Nowhere").unwrap_err();
    assert_eq!(DISP_E_UNKNOWNNAME, err.0);
    assert_eq!("get_ids_of_names()", err.1);
    assert_eq!(0, err.2);
}

#[test]
fn test_put_and_text_and_object_results() {
    let mut env = ComEnv::new(1 << 16);
    let helper = env.add_object(base_script()).unwrap();
    let mut script = base_script();
    script.names = vec![
        NameEntry { name: String::from("Title"), dispid: 1 },
        NameEntry { name: String::from("Child"), dispid: 2 },
    ];
    script.handlers = vec![
        DispHandler {
            dispid: 1,
            flags: DISPATCH_PROPERTYPUT,
            outcome: DispOutcome::Retv(SmartVariant::Empty),
        },
        DispHandler {
            dispid: 1,
            flags: DISPATCH_PROPERTYGET,
            outcome: DispOutcome::Retv(SmartVariant::Text(String::from("hello"))),
        },
        DispHandler {
            dispid: 2,
            flags: DISPATCH_PROPERTYGET,
            outcome: DispOutcome::Retv(SmartVariant::IDispatch(helper)),
        },
    ];
    let p = env.add_object(script).unwrap();
    let d = AutoCOMInterface::<IDispatch>::try_from(p).unwrap();

    // put passes the value as the sole argument under the put kind
    let r = d.put(&mut env, "Title", SmartVariant::Int2(3)).unwrap();
    assert_eq!(SmartVariant::Empty, r);
    let (_, dispid, _, flags) = env.call_meta(env.calls_len() - 1);
    assert_eq!(1, dispid);
    assert_eq!(DISPATCH_PROPERTYPUT, flags);
    assert_eq!(1, env.call_args(env.calls_len() - 1).len());

    // a text result is decoded and its buffer freed
    let live = env.heap.live_count();
    assert_eq!(SmartVariant::Text(String::from("hello")), d.get(&mut env, "Title").unwrap());
    assert_eq!(live, env.heap.live_count());

    // an object result carries one fresh count for the caller
    let before = env.ref_count_of(helper);
    assert_eq!(SmartVariant::IDispatch(helper), d.get(&mut env, "Child").unwrap());
    assert_eq!(before + 1, env.ref_count_of(helper));
}

#[test]
fn test_get_type_info() {
    let mut env = ComEnv::new(1 << 12);
    let info = env.add_object(base_script()).unwrap();
    let mut script = base_script();
    script.type_info_count = 1;
    script.type_info = info;
    let p = env.add_object(script).unwrap();
    let d = AutoCOMInterface::<IDispatch>::try_from(p).unwrap();

    assert_eq!(Ok(1), d.get_type_info_count(&env));
    let before = env.ref_count_of(info);
    let t = d.get_type_info(&mut env, 0, LOCALE_USER_DEFAULT).unwrap();
    assert_eq!(info, t.as_iunknown_ptr());
    assert_eq!(before + 1, env.ref_count_of(info));
    match d.get_type_info(&mut env, 1, LOCALE_USER_DEFAULT) {
        Ok(_) => panic!("index out of range must be refused"),
        Err(code) => assert_eq!(DISP_E_BADINDEX, code),
    }
}

#[test]
fn test_activation_and_factory() {
    let mut env = ComEnv::new(1 << 16);
    let clsid: u128 = 0x00112233_4455_6677_8899_AABBCCDDEEFF;
    assert!(env.register_class(clsid, base_script()));

    // direct activation
    let inst = AutoCOMInterface::<IDispatch>::create_instance(&mut env, clsid, 0, CLSCTX_ALL)
        .unwrap();
    assert_eq!(1, env.ref_count_of(inst.as_iunknown_ptr()));

    // unknown class, aggregation, unsupported capability
    match AutoCOMInterface::<IDispatch>::create_instance(&mut env, 1, 0, CLSCTX_ALL) {
        Ok(_) => panic!("unregistered class must be refused"),
        Err(code) => assert_eq!(REGDB_E_CLASSNOTREG, code),
    }
    match AutoCOMInterface::<IDispatch>::create_instance(&mut env, clsid, 5, CLSCTX_ALL) {
        Ok(_) => panic!("aggregation must be refused"),
        Err(code) => assert_eq!(CLASS_E_NOAGGREGATION, code),
    }
    match AutoCOMInterface::<ITypeInfo>::create_instance(&mut env, clsid, 0, CLSCTX_ALL) {
        Ok(_) => panic!("unsupported capability must be refused"),
        Err(code) => assert_eq!(E_NOINTERFACE, code),
    }

    // the class object creates instances too
    let factory = AutoCOMInterface::<IClassFactory>::get_class_object(&mut env, clsid, CLSCTX_ALL)
        .unwrap();
    let inst2: AutoCOMInterface<IDispatch> = factory.create_factory_instance(&mut env, 0).unwrap();
    assert_eq!(1, env.ref_count_of(inst2.as_iunknown_ptr()));
    match factory.create_factory_instance::<IDispatch>(&mut env, 5) {
        Ok(_) => panic!("aggregation must be refused"),
        Err(code) => assert_eq!(CLASS_E_NOAGGREGATION, code),
    }

    // a plain object is no factory
    let plain = env.add_object(base_script()).unwrap();
    let not_factory = AutoCOMInterface::<IClassFactory>::try_from(plain).unwrap();
    match not_factory.create_factory_instance::<IDispatch>(&mut env, 0) {
        Ok(_) => panic!("a plain object must not create instances"),
        Err(code) => assert_eq!(E_FAIL, code),
    }

    // the server lock count moves with lock_server and saturates at zero
    assert_eq!(S_OK, factory.lock_server(&mut env, true));
    assert_eq!(1, env.locks);
    assert_eq!(S_OK, factory.lock_server(&mut env, false));
    assert_eq!(S_OK, factory.lock_server(&mut env, false));
    assert_eq!(0, env.locks);
}

#[test]
fn test_invoke_argument_conversion_failure() {
    // A heap too small for the text argument: the invocation stops before any
    // foreign call, names the argument, and leaks nothing.
    let mut env = ComEnv::new(16);
    let mut script = base_script();
    script.handlers = vec![DispHandler {
        dispid: 1,
        flags: DISPATCH_METHOD,
        outcome: DispOutcome::Retv(SmartVariant::Empty),
    }];
    let p = env.add_object(script).unwrap();
    let d = AutoCOMInterface::<IDispatch>::try_from(p).unwrap();
    let args = vec![
        SmartVariant::Int4(0),
        SmartVariant::Text(String::from("abcdefgh")),
    ];
    let err = d.invoke(&mut env, 1, LOCALE_USER_DEFAULT, DISPATCH_METHOD, &args).unwrap_err();
    assert_eq!(E_OUTOFMEMORY, err.0);
    assert_eq!("argument conversion failed", err.1);
    assert_eq!(1, err.2);
    assert_eq!(0, env.calls_len());
    assert_eq!(0, env.heap.live_count());
}

#[test]
fn test_AutoCOMInterface_create_instance() {
    let mut env = ComEnv::new(1 << 16);
    // a third-party automation connector class
    let clsid: u128 = 0x181E893D_73A4_4722_B61D_D604B3D67D47;
    let mut script = base_script();
    script.names = vec![
        NameEntry { name: String::from("NewObject"), dispid: 1 },
        NameEntry {
            name: String::from("ПолучитьСтруктуруХраненияБазыДанных"),
            dispid: 0,
        },
    ];
    script.handlers = vec![DispHandler {
        dispid: 1,
        flags: DISPATCH_METHOD,
        outcome: DispOutcome::Retv(SmartVariant::Int4(0)),
    }];
    assert!(env.register_class(clsid, script));

    let v8cc = AutoCOMInterface::<IDispatch>::create_instance(&mut env, clsid, 0, CLSCTX_ALL)
        .unwrap();
    assert_ne!(0, v8cc.as_iunknown_ptr());

    let conn_string = String::from("Srvr=\"192.168.6.93\";Ref=\"Trade_EP_Today_COPY\";");
    let dispids = v8cc.get_ids_of_names(
        &env,
        &vec![
            String::from("NewObject"),
            String::from("ПолучитьСтруктуруХраненияБазыДанных"),
        ],
        LOCALE_USER_DEFAULT,
    );
    assert!(SUCCEEDED(dispids.1));
    assert_eq!(0, dispids.0[1]);

    let r = v8cc
        .call(&mut env, "NewObject", &vec![SmartVariant::Text(conn_string)])
        .unwrap();
    assert_eq!(SmartVariant::Int4(0), r);
}
