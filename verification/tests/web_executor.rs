use std::collections::HashMap;

use gosub_engine::js::v8::value::V8Value;
use gosub_engine::types::Error;
use gosub_engine::web_executor::js::v8::context::V8Ctx;
use gosub_engine::web_executor::js::v8::function::{
    callback_outcome, CallbackOutcome, V8Args, V8FunctionCallBack, V8FunctionCallBackVariadic,
};
use gosub_engine::web_executor::js::JSError;
use gosub_engine::web_executor::test::{array_test, Test2, TestStruct};

#[test]
fn web_executor_test() {
    let test = TestStruct {
        field: 3,
        field2: HashMap::new(),
    };

    let k = test.add(5);
    assert_eq!(k, 8);
}

#[test]
fn webinterop_test() {
    let test = TestStruct {
        field: 3,
        field2: HashMap::new(),
    };

    let k = test.add(5);
    assert_eq!(k, 8);
}

#[test]
fn test_struct_methods() {
    let mut test = TestStruct { field: -4, field2: HashMap::new() };
    test.add2(10);
    assert_eq!(test.field, 6);
    assert_eq!(TestStruct::add3(2, 40), 42);
    TestStruct::v8_variadic(7u8);
    array_test();
}

#[test]
fn test2_methods() {
    let mut t = Test2 { field: 1, other_field: "foo".to_string() };
    assert_eq!(t.cool_fn(), 1);
    t.add(41);
    assert_eq!(t.cool_fn(), 42);
    assert_eq!(t.concat("bar".to_string()), "foobar");
    assert_eq!(t.takes_ref(&"baz".to_string()), "foobaz");
    assert_eq!(t.other_field, "foo");
}

#[test]
fn args_are_read_in_order() {
    let ctx: u32 = 7;
    let values = vec![
        V8Value { context: ctx, value: 1i32 },
        V8Value { context: ctx, value: 2i32 },
        V8Value { context: ctx, value: 3i32 },
    ];
    let mut args = V8Args::new(values, ctx);
    assert_eq!(args.len(), 3);
    assert_eq!(args.v8(), &[1, 2, 3]);
    let other_ctx: u32 = 9;
    let second = args.get(1, other_ctx).unwrap();
    assert_eq!(second.value, 2);
    assert_eq!(second.context, 9);
    assert!(args.get(3, other_ctx).is_none());
    let all = args.as_vec(other_ctx);
    assert_eq!(all.iter().map(|v| v.value).collect::<Vec<_>>(), vec![1, 2, 3]);
    assert!(all.iter().all(|v| v.context == 9));
    assert_eq!(args.next(), Some(1));
    assert_eq!(args.next(), Some(2));
    assert_eq!(args.next(), Some(3));
    assert_eq!(args.next(), None);
    assert_eq!(args.next(), None);
}

#[test]
fn callback_returns_set_value() {
    let args: V8Args<i32> = V8Args::new(vec![V8Value { context: 1u8, value: 10 }], 1u8);
    let mut cb = V8FunctionCallBack::new(1u8, args).unwrap();
    assert_eq!(cb.len(), 1);
    assert_eq!(cb.context(), 1u8);
    assert_eq!(cb.args().len(), 1);
    cb.ret(99);
    match callback_outcome(cb.into_returned()) {
        CallbackOutcome::Return(v) => assert_eq!(v, 99),
        CallbackOutcome::Throw(_) => panic!("expected a value"),
    }
    let mut cb2 = V8FunctionCallBack::new(2u8, V8Args::<i32>::new(Vec::<V8Value<u8, i32>>::new(), 2u8)).unwrap();
    cb2.ret(5);
    assert_eq!(cb2.len(), 0);
    assert_eq!(cb2.into_returned().ok(), Some(5));
    let untouched = V8FunctionCallBack::new(3u8, V8Args::<i32>::new(Vec::<V8Value<u8, i32>>::new(), 3u8)).unwrap();
    match callback_outcome(untouched.into_returned()) {
        CallbackOutcome::Throw(m) => assert_eq!(m, "execution error: function was not called"),
        CallbackOutcome::Return(_) => panic!("expected an exception"),
    }
}

#[test]
fn callback_outcome_of_error_is_exception() {
    let out: CallbackOutcome<i32> =
        callback_outcome(Err(Error::JS(JSError::Execution("function was not called".to_string()))));
    match out {
        CallbackOutcome::Throw(m) => assert_eq!(m, "execution error: function was not called"),
        CallbackOutcome::Return(_) => panic!("expected an exception"),
    }
    match callback_outcome::<i32>(Ok(6)) {
        CallbackOutcome::Return(v) => assert_eq!(v, 6),
        CallbackOutcome::Throw(_) => panic!("expected a value"),
    }
}

#[test]
fn variadic_callback_args() {
    let mut cb = V8FunctionCallBackVariadic::new(3u16, vec![1i64, 2, 3, 4]);
    assert_eq!(cb.len(), 4);
    assert_eq!(cb.context(), 3u16);
    let inner = cb.args();
    assert_eq!(inner.len(), 4);
    assert_eq!(inner.get(3, 5u16).unwrap().value, 4);
    let variadic = inner.variadic(5u16);
    assert_eq!(variadic.len(), 4);
    assert_eq!(variadic.get(0).unwrap().value, 1);
    assert_eq!(variadic.get(0).unwrap().context, 5);
    assert!(variadic.get(4).is_none());
    let sum: i64 = variadic.as_vec().iter().map(|v| v.value).sum();
    assert_eq!(sum, 10);
    cb.ret(10);
    assert_eq!(cb.into_returned().ok(), Some(10));
}

#[test]
fn error_messages() {
    assert_eq!(JSError::Generic("x".to_string()).to_string(), "generic error: x");
    assert_eq!(JSError::Conversion("y".to_string()).to_string(), "conversion error: y");
    assert_eq!(JSError::Runtime("z".to_string()).to_string(), "runtime error: z");
    assert_eq!(JSError::Compile("c".to_string()).to_string(), "compile error: c");
    assert_eq!(JSError::Initialize("i".to_string()).to_string(), "initialize error: i");
    assert_eq!(JSError::Execution("e".to_string()).to_string(), "execution error: e");
    assert_eq!(Error::JS(JSError::Compile("bad".to_string())).to_string(), "compile error: bad");
    assert_eq!(
        gosub_engine::js::JSError::Generic("g".to_string()).to_string(),
        "generic error: g"
    );
    assert_eq!(
        gosub_engine::js::JSError::Conversion("h".to_string()).to_string(),
        "conversion error: h"
    );
}

#[test]
fn report_exception_prefers_the_exception() {
    type Ctx = V8Ctx<u8, u8, u8, u8>;
    let e = Ctx::report_exception(Some("boom".to_string()), Some("msg".to_string()));
    assert_eq!(e.to_string(), "compile error: boom");
    let e = Ctx::report_exception(None, Some("msg".to_string()));
    assert_eq!(e.to_string(), "compile error: msg");
    let e = Ctx::report_exception(None, None);
    assert_eq!(e.to_string(), "compile error: unknown error");
}

#[test]
fn v8_ctx_parts() {
    let mut ctx = V8Ctx::new(1u8, 2u16, 3u32, 4u64).unwrap();
    *ctx.scope() += 10;
    *ctx.isolate() += 10;
    assert_eq!(*ctx.scope(), 14);
    assert_eq!(*ctx.isolate(), 11);
    assert_eq!(*ctx.handle_scope(), 2);
    assert_eq!(*ctx.context(), 3);
}

#[test]
fn arguments_rebuilt_from_tagged_values_keep_them() {
    let args = V8Args::new(vec![V8Value { context: 0u8, value: 'a' }, V8Value { context: 0u8, value: 'b' }], 0u8);
    let again = V8Args::new(args.as_vec(4u8), 4u8);
    assert_eq!(again.v8(), args.v8());
}
