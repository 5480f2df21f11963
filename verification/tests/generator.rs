use rusteron::generator::{generate_handlers, generate_rust_code, get_docs, ReturnType, COMMON_CODE};
use rusteron::model::{Arg, ArgProcessing, Bindings, CWrapper, Handler, Method};
use rusteron::parser::{process_types, snake_to_pascal_case};

const C_INT: &str = ":: std :: os :: raw :: c_int";
const C_VOID: &str = "* mut :: std :: os :: raw :: c_void";

fn s(text: &str) -> String {
    text.to_string()
}

fn method(owner: &str, name: &str, ret: &str, args: &[(&str, &str)]) -> Method {
    Method {
        fn_name: format!("{}_{}", owner, name),
        struct_method_name: s(name),
        return_type: s(ret),
        arguments: process_types(args.iter().map(|(n, t)| (s(n), s(t))).collect()),
        docs: vec![],
    }
}

fn wrapper(c_name: &str, fields: &[(&str, &str)], methods: Vec<Method>) -> CWrapper {
    CWrapper {
        class_name: snake_to_pascal_case(c_name),
        c_name: s(c_name),
        without_name: s(&c_name[..c_name.len() - 2]),
        fields: fields.iter().map(|(n, t)| (s(n), s(t))).collect(),
        methods,
        docs: vec![],
    }
}

fn widget() -> CWrapper {
    wrapper(
        "widget_t",
        &[("size", "u32"), ("_reserved", "u8"), ("close", "u8"), ("label", "* const :: std :: os :: raw :: c_char")],
        vec![
            method("widget", "init", C_INT, &[("widget", "* mut * mut widget_t"), ("size", "u32")]),
            method("widget", "close", C_INT, &[("widget", "* mut widget_t")]),
            method("widget", "resize", C_INT, &[("widget", "* mut widget_t"), ("other", "* mut gadget_t"), ("size", "u32")]),
            method(
                "widget",
                "set_on_poke",
                "()",
                &[("widget", "* mut widget_t"), ("handler", "widget_on_poke_t"), ("clientd", C_VOID)],
            ),
        ],
    )
}

fn poke_handler() -> Handler {
    Handler {
        c_name: s("widget_on_poke_t"),
        args: vec![(s("clientd"), s(C_VOID)), (s("widget"), s("* mut widget_t")), (s("force"), s("i64"))],
        return_type: s("()"),
        docs: vec![s("Called on a poke.")],
    }
}

#[test]
fn the_conversion_table() {
    let wrappers = vec![widget()];
    let of = |t: &str| ReturnType::new(s(t), &wrappers);
    assert_eq!(of("* mut widget_t").get_new_return_type(true), "Widget");
    assert_eq!(of("widget_t").get_new_return_type(true), "Widget");
    assert_eq!(of("* mut * mut widget_t").get_new_return_type(true), "* mut * mut widget_t");
    assert_eq!(of(C_INT).get_new_return_type(true), "Result<i32, AeronCError>");
    assert_eq!(of(C_INT).get_new_return_type(false), C_INT);
    assert_eq!(of("* const :: std :: os :: raw :: c_char").get_new_return_type(false), "&str");
    assert_eq!(of("i64").get_new_return_type(true), "i64");
    assert_eq!(
        of(C_INT).handle_c_to_rs_return("result", true),
        "if result < 0 { return Err(AeronCError::from_code(result)); } else { return Ok(result); }"
    );
    assert_eq!(of(C_INT).handle_c_to_rs_return("result", false), "result.into()");
    assert_eq!(
        of("* const :: std :: os :: raw :: c_char").handle_c_to_rs_return("x", true),
        "std::ffi::CStr::from_ptr(x).to_str().unwrap()"
    );
    assert_eq!(
        of("* const :: std :: os :: raw :: c_char").handle_rs_to_c_return("x"),
        "std::ffi::CString::new(x).unwrap().into_raw()"
    );
    assert_eq!(of("u8").handle_rs_to_c_return("x"), "x.into()");
}

#[test]
fn documentation_becomes_attributes() {
    let docs = vec![s("Sends \"it\".\n@param x the thing\r\n@return 0 on success")];
    assert_eq!(
        get_docs(&docs),
        "#[doc = \"Sends \\\"it\\\".\"]\n#[doc = \"\\n**param** x the thing\"]\n#[doc = \"\\n**return** 0 on success\"]\n"
    );
}

#[test]
fn an_initializer_is_paired_with_its_close() {
    let w = widget();
    assert_eq!(w.close_of(0), Some(1));
    assert_eq!(w.close_of(1), None);
    let text = w.generate_constructor();
    assert!(text.contains("pub fn new(size: u32) -> Result<Self, AeronCError>"), "{}", text);
    assert!(text.contains("move |ctx| unsafe { widget_init(ctx, size.clone()) }"), "{}", text);
    assert!(text.contains("move |ctx| unsafe { widget_close(*ctx) }"), "{}", text);
    assert!(!text.contains("new_zeroed"));
}

#[test]
fn an_ambiguous_close_gives_no_pairing() {
    let mut w = widget();
    w.methods.push(method("widget", "close", C_INT, &[("widget", "* mut widget_t")]));
    assert_eq!(w.close_of(0), None);
    let text = w.generate_constructor();
    assert!(text.contains("pub fn new_zeroed()"));
    assert!(!text.contains("widget_init"));
    // a close that returns no status code does not count
    let mut w = widget();
    w.methods[1].return_type = s("()");
    assert_eq!(w.close_of(0), None);
}

#[test]
fn plain_data_can_be_made_from_its_fields() {
    let point = wrapper("point_t", &[("x", "i32"), ("y", "i32")], vec![]);
    assert!(point.has_default_method());
    let text = point.generate_constructor();
    assert!(text.contains("pub fn new(x: i32, y: i32) -> Result<Self, AeronCError>"), "{}", text);
    assert!(text.contains("let inst = point_t { x: x.clone(), y: y.clone() };"), "{}", text);
    assert!(text.contains("pub fn new_zeroed()"));
    let all = generate_rust_code(&point, &vec![point.clone()], false, false, true, &vec![]);
    assert!(all.contains("impl Default for Point"));
    assert!(!widget().has_default_method());
    assert!(!wrapper("empty_t", &[], vec![]).has_default_method());
    assert!(!wrapper("hidden_t", &[("_x", "i32")], vec![]).has_default_method());
    assert!(!wrapper("tuple_t", &[("", "i32")], vec![]).has_default_method());
}

#[test]
fn a_method_shadows_the_field_of_its_name() {
    let w = widget();
    let text = w.generate_fields(&vec![w.clone()], true);
    assert!(text.contains("pub fn size(&self) -> u32"), "{}", text);
    assert!(text.contains("pub fn label(&self) -> &str"), "{}", text);
    assert!(!text.contains("pub fn close"), "{}", text);
    assert!(!text.contains("_reserved"), "{}", text);
    let all = generate_rust_code(&w, &vec![w.clone()], false, false, true, &vec![]);
    assert_eq!(all.matches("pub fn close(").count(), 1, "{}", all);
}

#[test]
fn methods_take_wrappers_and_callbacks() {
    let w = widget();
    let gadget = wrapper("gadget_t", &[], vec![]);
    let wrappers = vec![w.clone(), gadget];
    let handlers = vec![poke_handler()];
    let text = w.generate_methods(&wrappers, &handlers, true);
    assert!(!text.contains("pub fn init"), "{}", text);
    assert!(text.contains("pub fn close(&self) -> Result<i32, AeronCError> {"), "{}", text);
    assert!(text.contains("let result = widget_close(self.get_inner());"), "{}", text);
    assert!(
        text.contains("pub fn resize(&self, other: &Gadget, size: u32) -> Result<i32, AeronCError> {"),
        "{}",
        text
    );
    assert!(text.contains("let result = widget_resize(self.get_inner(), other.get_inner(), size);"), "{}", text);
    assert!(text.contains("pub fn set_on_poke<HandlerImpl: WidgetPokeHandler>(&self, handler: HandlerImpl) -> () {"), "{}", text);
    assert!(
        text.contains(
            "let result = widget_set_on_poke(self.get_inner(), Some(widget_on_poke_t_callback::<HandlerImpl>), Box::into_raw(Box::new(handler)) as *mut ::std::os::raw::c_void);"
        ),
        "{}",
        text
    );
    // without the callback's signature the two parameters are handed on as they are
    let plain = w.generate_methods(&wrappers, &vec![], false);
    assert!(plain.contains("pub fn set_on_poke(&self, handler: widget_on_poke_t, clientd: * mut :: std :: os :: raw :: c_void) -> () {"), "{}", plain);
    assert!(plain.contains("pub fn close(&self) -> :: std :: os :: raw :: c_int {"), "{}", plain);
}

#[test]
fn a_trampoline_keeps_the_parameters_of_its_callback() {
    let bindings = Bindings { wrappers: vec![widget()], methods: vec![], handlers: vec![poke_handler()] };
    let text = generate_handlers(&bindings.handlers[0], &bindings);
    assert_eq!(
        text,
        "#[doc = \"Called on a poke.\"]\npub trait WidgetPokeHandler {\n    fn handle(&mut self, widget: Widget, force: i64);\n}\n\n#[doc = \"Called on a poke.\"]\nunsafe extern \"C\" fn widget_on_poke_t_callback<F: WidgetPokeHandler>(clientd: * mut :: std :: os :: raw :: c_void, widget: * mut widget_t, force: i64) {\n    if !clientd.is_null() {\n        let closure: &mut F = &mut *(clientd as *mut F);\n        closure.handle(widget.into(), force.into());\n    }\n}\n"
    );
    let none = Handler { c_name: s("x_t"), args: vec![], return_type: s("()"), docs: vec![] };
    assert_eq!(generate_handlers(&none, &bindings), "");
    let nameless = Handler {
        c_name: s("y_t"),
        args: vec![(s("clientd"), s(C_VOID)), (s(""), s("i32"))],
        return_type: s("()"),
        docs: vec![],
    };
    assert_eq!(generate_handlers(&nameless, &bindings), "");
    let typed = Handler { c_name: s("z_t"), args: vec![(s("w"), s("* mut widget_t"))], return_type: s("()"), docs: vec![] };
    assert_eq!(generate_handlers(&typed, &bindings), "");
}

#[test]
fn a_denied_wrapper_gives_no_text() {
    let thread = wrapper(
        "aeron_thread_t",
        &[("id", "u32")],
        vec![method("aeron_thread", "init", C_INT, &[("t", "* mut * mut aeron_thread_t")])],
    );
    assert_eq!(generate_rust_code(&thread, &vec![thread.clone()], true, true, true, &vec![]), "");
    let resolver = wrapper("aeron_name_resolver_cache_t", &[], vec![]);
    assert_eq!(generate_rust_code(&resolver, &vec![], false, false, false, &vec![]), "");
}

#[test]
fn the_runtime_is_written_where_it_is_asked_for() {
    let w = widget();
    let wrappers = vec![w.clone()];
    let with = generate_rust_code(&w, &wrappers, true, true, true, &vec![]);
    assert!(with.starts_with("#![allow(non_upper_case_globals)]\n"));
    assert!(with.ends_with(COMMON_CODE));
    for part in [
        "pub enum AeronErrorType {",
        "pub struct AeronCError {",
        "pub struct ManagedCResource<T> {",
        "check_for_is_closed: Option<Box<dyn Fn(*mut T) -> bool>>,",
        "pub fn set_auto_close(&self, auto_close: bool)",
        "pub fn add_dependency<D: std::any::Any>(&self, dep: D)",
        "impl<T> Drop for ManagedCResource<T> {",
        "pub struct Handler<T> {",
    ] {
        assert!(COMMON_CODE.contains(part), "{}", part);
    }
    assert!(with.contains("Some(Box::new(move |ctx| unsafe { widget_close(*ctx) })),\n            false,\n            None,"));
    assert!(with.contains("pub struct Widget {\n    inner: std::rc::Rc<ManagedCResource<widget_t>>,\n}"));
    assert!(with.contains("impl From<*mut widget_t> for Widget {"));
    assert!(with.contains("impl From<Widget> for *mut widget_t {"));
    assert!(with.contains("impl From<*const widget_t> for Widget {"));
    assert!(with.contains("impl From<widget_t> for Widget {"));
    let bare = generate_rust_code(&w, &wrappers, true, false, true, &vec![]);
    assert!(bare.starts_with("#[derive(Debug, Clone)]"));
    assert!(bare.ends_with(COMMON_CODE));
    let without = generate_rust_code(&w, &wrappers, false, true, true, &vec![]);
    assert!(without.starts_with("#[derive(Debug, Clone)]"));
    assert!(!without.contains("pub struct ManagedCResource"));
}

#[test]
fn the_two_phase_pattern() {
    let publication = wrapper(
        "aeron_publication_t",
        &[],
        vec![Method {
            fn_name: s("aeron_async_add_publication_poll"),
            struct_method_name: s("aeron_async_add_publication_poll"),
            return_type: s(C_INT),
            arguments: process_types(vec![
                (s("publication"), s("* mut * mut aeron_publication_t")),
                (s("async_"), s("* mut aeron_async_add_publication_t")),
            ]),
            docs: vec![],
        }],
    );
    let pending = wrapper(
        "aeron_async_add_publication_t",
        &[],
        vec![Method {
            fn_name: s("aeron_async_add_publication"),
            struct_method_name: s("aeron_async_add_publication"),
            return_type: s(C_INT),
            arguments: vec![
                Arg { name: s("async_"), c_type: s("* mut * mut aeron_async_add_publication_t"), processing: ArgProcessing::Default },
                Arg { name: s("uri"), c_type: s("* const :: std :: os :: raw :: c_char"), processing: ArgProcessing::Default },
                Arg { name: s("stream_id"), c_type: s("i32"), processing: ArgProcessing::Default },
            ],
            docs: vec![],
        }],
    );
    let wrappers = vec![publication.clone(), pending.clone()];
    let text = generate_rust_code(&pending, &wrappers, false, false, true, &vec![]);
    assert!(text.contains("impl AeronPublication {\n    pub fn new(async_: AeronAsyncAddPublication) -> Result<Self, AeronCError> {"), "{}", text);
    assert!(text.contains("move |ctx| unsafe { aeron_async_add_publication_poll(ctx, async_.into()) }"), "{}", text);
    assert!(text.contains("impl AeronAsyncAddPublication {\n    pub fn new(uri: &str, stream_id: i32) -> Result<Self, AeronCError> {"), "{}", text);
    assert!(
        text.contains("aeron_async_add_publication(ctx, std::ffi::CString::new(uri).unwrap().into_raw(), stream_id.into())"),
        "{}",
        text
    );
    assert!(text.contains("pub fn poll(&self) -> Option<AeronPublication>"));
    assert!(text.contains("pub fn poll_blocking(&self, timeout: std::time::Duration) -> Result<AeronPublication, AeronCError>"));
    assert!(text.contains("if time.elapsed() + interval > timeout {\n                return Err(AeronCError::from_code(-234324));"));
    // without the completed type's wrapper the pattern is left out
    let alone = generate_rust_code(&pending, &vec![pending.clone()], false, false, true, &vec![]);
    assert!(!alone.contains("poll_blocking"));
    let plain = generate_rust_code(&publication, &wrappers, false, false, true, &vec![]);
    assert!(!plain.contains("poll_blocking"));
}
