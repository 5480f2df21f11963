use rusteron::generator::{generate_handlers, generate_rust_code};
use rusteron::model::{ArgProcessing, Bindings, CWrapper, Declaration};
use rusteron::parser::{extract_bindings, parse_bindings, process_types, snake_to_pascal_case};
use rusteron::syntax::read_dump;

fn s(text: &str) -> String {
    text.to_string()
}

const DUMP: &str = r#"
#[doc = " A publication. "]
#[repr(C)]
pub struct aeron_publication_stct {
    pub _unused: [u8; 0],
}
pub type aeron_publication_t = aeron_publication_stct;
pub struct aeron_image_fragment_assembler_stct {
    pub delegate: aeron_fragment_handler_t,
    pub delegate_clientd: *mut ::std::os::raw::c_void,
}
pub type aeron_image_fragment_assembler_t = aeron_image_fragment_assembler_stct;
pub struct aeron_thread_stct {
    pub id: i32,
}
#[doc = " Called for each fragment."]
pub type aeron_fragment_handler_t = ::std::option::Option<
    unsafe extern "C" fn(
        clientd: *mut ::std::os::raw::c_void,
        buffer: *const u8,
        length: usize,
    ),
>;
pub type aeron_on_close_client_t =
    ::std::option::Option<unsafe extern "C" fn(clientd: *mut ::std::os::raw::c_void)>;
pub type aeron_idle_strategy_func_t =
    ::std::option::Option<unsafe extern "C" fn(state: *mut ::std::os::raw::c_void, work_count: ::std::os::raw::c_int)>;
pub type aeron_clock_func_t = ::std::option::Option<unsafe extern "C" fn() -> i64>;
extern "C" {
    #[doc = " Offer a message."]
    pub fn aeron_publication_offer(
        publication: *mut aeron_publication_t,
        buffer: *const u8,
        length: usize,
    ) -> i64;
    pub fn aeron_publication_close(
        publication: *mut aeron_publication_t,
        on_close_complete: aeron_notification_t,
        on_close_complete_clientd: *mut ::std::os::raw::c_void,
    ) -> ::std::os::raw::c_int;
    pub fn aeron_image_fragment_assembler_create(
        assembler: *mut *mut aeron_image_fragment_assembler_t,
        delegate: aeron_fragment_handler_t,
        delegate_clientd: *mut ::std::os::raw::c_void,
    ) -> ::std::os::raw::c_int;
    pub fn aeron_version_major() -> ::std::os::raw::c_int;
    pub fn aeron_thread_start(thread: *mut aeron_thread_t) -> ::std::os::raw::c_int;
}
"#;

#[test]
fn pascal_case_of_a_type_name() {
    assert_eq!(snake_to_pascal_case("aeron_image_fragment_assembler_t"), "AeronImageFragmentAssembler");
    assert_eq!(snake_to_pascal_case("aeron_on_available_image_t"), "AeronAvailableImage");
    assert_eq!(snake_to_pascal_case("plain"), "Plain");
    assert_eq!(snake_to_pascal_case(""), "");
}

#[test]
fn a_callback_and_its_context_are_marked() {
    let args = process_types(vec![
        (s("publication"), s("* mut aeron_publication_t")),
        (s("handler"), s("aeron_notification_t")),
        (s("clientd"), s("* mut :: std :: os :: raw :: c_void")),
    ]);
    assert_eq!(args.len(), 3);
    assert_eq!(args[0].processing, ArgProcessing::Default);
    let mark = ArgProcessing::Handler {
        handler_name: s("handler"),
        handler_type: s("aeron_notification_t"),
        clientd_name: s("clientd"),
        clientd_type: s("* mut :: std :: os :: raw :: c_void"),
    };
    assert_eq!(args[1].processing, mark);
    assert_eq!(args[2].processing, mark);
}

#[test]
fn a_dump_is_read_in_order() {
    let decls = read_dump(DUMP).unwrap();
    assert_eq!(decls.len(), 14);
    match &decls[0] {
        Declaration::Record { name, fields, docs } => {
            assert_eq!(name, "aeron_publication_stct");
            assert_eq!(fields, &vec![(s("_unused"), s("[u8 ; 0]"))]);
            assert_eq!(docs, &vec![s("A publication.")]);
        }
        other => panic!("{:?}", other),
    }
    match &decls[5] {
        Declaration::Alias { name, callback, docs, .. } => {
            assert_eq!(name, "aeron_fragment_handler_t");
            let callback = callback.as_ref().unwrap();
            assert_eq!(callback.params.len(), 3);
            assert_eq!(callback.params[0], (s("clientd"), s("* mut :: std :: os :: raw :: c_void")));
            assert_eq!(callback.return_type, "()");
            assert_eq!(docs, &vec![s("Called for each fragment.")]);
        }
        other => panic!("{:?}", other),
    }
    match &decls[9] {
        Declaration::Function { name, arguments, return_type, .. } => {
            assert_eq!(name, "aeron_publication_offer");
            assert_eq!(arguments[0], (s("publication"), s("* mut aeron_publication_t")));
            assert_eq!(return_type, "i64");
        }
        other => panic!("{:?}", other),
    }
}

fn wrapper_of<'a>(bindings: &'a Bindings, c_name: &str) -> &'a CWrapper {
    bindings.wrappers.iter().find(|w| w.c_name == c_name).unwrap()
}

#[test]
fn parser_media_driver() {
    let bindings = parse_bindings(DUMP).unwrap();
    assert_eq!(
        "AeronImageFragmentAssembler",
        wrapper_of(&bindings, "aeron_image_fragment_assembler_t").class_name
    );
}

#[test]
fn parser_client() {
    let bindings = parse_bindings(DUMP).unwrap();
    assert_eq!(
        "AeronImageFragmentAssembler",
        wrapper_of(&bindings, "aeron_image_fragment_assembler_t").class_name
    );
    assert!(bindings.handlers.len() > 1);
}

fn generate_everything(bindings: &Bindings) -> String {
    let mut code = String::new();
    for (p, w) in bindings.wrappers.iter().enumerate() {
        code.push_str(&generate_rust_code(w, &bindings.wrappers, p == 0, true, true, &bindings.handlers));
    }
    for h in &bindings.handlers {
        code.push_str(&generate_handlers(h, bindings));
    }
    code.push_str("\npub fn main() {}\n");
    code
}

#[test]
fn lib_media_driver() {
    let bindings = parse_bindings(DUMP).unwrap();
    assert_eq!(
        "AeronImageFragmentAssembler",
        wrapper_of(&bindings, "aeron_image_fragment_assembler_t").class_name
    );
    let code = generate_everything(&bindings);
    assert!(code.contains("pub struct AeronImageFragmentAssembler {"), "{}", code);
    assert!(syn::parse_file(&code).is_ok(), "{}", code);
}

#[test]
fn lib_client() {
    let bindings = parse_bindings(DUMP).unwrap();
    assert_eq!(
        "AeronImageFragmentAssembler",
        wrapper_of(&bindings, "aeron_image_fragment_assembler_t").class_name
    );
    let code = generate_everything(&bindings);
    assert!(code.contains("pub fn new_zeroed() -> Result<Self, AeronCError>"), "{}", code);
    assert!(code.contains("pub fn offer(&self, buffer: * const u8, length: usize) -> i64 {"), "{}", code);
    assert!(syn::parse_file(&code).is_ok(), "{}", code);
}

#[test]
fn archive() {
    let bindings = parse_bindings(DUMP).unwrap();
    assert_eq!(
        "AeronImageFragmentAssembler",
        wrapper_of(&bindings, "aeron_image_fragment_assembler_t").class_name
    );
    let code = generate_everything(&bindings);
    assert!(code.contains("pub trait AeronFragmentHandlerHandler {"), "{}", code);
    assert!(syn::parse_file(&code).is_ok(), "{}", code);
}

#[test]
fn functions_go_to_their_owners() {
    let bindings = parse_bindings(DUMP).unwrap();
    let names: Vec<&str> = bindings.wrappers.iter().map(|w| w.c_name.as_str()).collect();
    assert_eq!(names, vec!["aeron_publication_t", "aeron_image_fragment_assembler_t"]);
    let publication = &bindings.wrappers[0];
    assert_eq!(publication.without_name, "aeron_publication");
    let methods: Vec<&str> = publication.methods.iter().map(|m| m.struct_method_name.as_str()).collect();
    assert_eq!(methods, vec!["offer", "close"]);
    assert_eq!(publication.methods[0].docs, vec![s("Offer a message.")]);
    // no callback signature is known for the close notification: the mark is taken back
    assert_eq!(publication.methods[1].arguments[1].processing, ArgProcessing::Default);
    let assembler = &bindings.wrappers[1];
    assert_eq!(assembler.methods[0].struct_method_name, "create");
    assert!(matches!(assembler.methods[0].arguments[1].processing, ArgProcessing::Handler { .. }));
    let free: Vec<&str> = bindings.methods.iter().map(|m| m.fn_name.as_str()).collect();
    // the function of the excluded thread subsystem leaves with its wrapper
    assert_eq!(free, vec!["aeron_version_major"]);
}

#[test]
fn a_malformed_dump_is_an_error() {
    assert!(parse_bindings("pub struct {").is_err());
    assert!(read_dump("extern \"C\" { fn f(; }").is_err());
}

#[test]
fn the_longest_name_wins() {
    let decls = vec![
        Declaration::Record { name: s("aeron_stct"), fields: vec![], docs: vec![] },
        Declaration::Record { name: s("aeron_counters_reader_stct"), fields: vec![], docs: vec![] },
        Declaration::Function {
            name: s("aeron_counters_reader_max_counter_id"),
            arguments: vec![],
            return_type: s("i32"),
            docs: vec![],
        },
        Declaration::Function { name: s("aeron_main_do_work"), arguments: vec![], return_type: s("i32"), docs: vec![] },
        Declaration::Function { name: s("other_call"), arguments: vec![], return_type: s("()"), docs: vec![] },
    ];
    let bindings = extract_bindings(&decls);
    assert_eq!(bindings.wrappers[0].methods.len(), 1);
    assert_eq!(bindings.wrappers[0].methods[0].struct_method_name, "main_do_work");
    assert_eq!(bindings.wrappers[1].methods.len(), 1);
    assert_eq!(bindings.wrappers[1].methods[0].struct_method_name, "max_counter_id");
    assert_eq!(bindings.methods.len(), 1);
    assert_eq!(bindings.methods[0].struct_method_name, "");
}

#[test]
fn records_outside_the_convention_get_no_wrapper() {
    let decls = vec![
        Declaration::Record { name: s("in_addr"), fields: vec![(s("s_addr"), s("u32"))], docs: vec![] },
        Declaration::Record { name: s("aeron_thing_stct"), fields: vec![], docs: vec![s("a"), s("b"), s("a")] },
        Declaration::Alias {
            name: s("aeron_thing_t"),
            text: s("pub type aeron_thing_t = aeron_thing_stct ;"),
            callback: None,
            docs: vec![s("b"), s("c")],
        },
        Declaration::Record {
            name: s("aeron_thing_stct"),
            fields: vec![(s("x"), s("i32"))],
            docs: vec![],
        },
        Declaration::Alias { name: s("aeron_alias"), text: s("pub type aeron_alias = x_stct ;"), callback: None, docs: vec![] },
    ];
    let bindings = extract_bindings(&decls);
    assert_eq!(bindings.wrappers.len(), 1);
    let thing = &bindings.wrappers[0];
    assert_eq!(thing.c_name, "aeron_thing_t");
    assert_eq!(thing.class_name, "AeronThing");
    assert_eq!(thing.docs, vec![s("a"), s("b"), s("c")]);
    assert_eq!(thing.fields, vec![(s("x"), s("i32"))]);
    assert!(bindings.is_consistent());
    let mut twice = bindings.clone();
    twice.wrappers.push(thing.clone());
    assert!(!twice.is_consistent());
}

#[test]
fn the_same_dump_gives_the_same_model() {
    let first = parse_bindings(DUMP).unwrap();
    let second = parse_bindings(DUMP).unwrap();
    assert_eq!(first, second);
    let decls = read_dump(DUMP).unwrap();
    assert_eq!(extract_bindings(&decls), first);
}

#[test]
fn a_wrapper_can_be_denied_by_the_caller() {
    let decls = read_dump(DUMP).unwrap();
    let deny = vec![s("aeron_publication"), s("nothing")];
    let bindings = rusteron::parser::extract_bindings_with(&decls, &deny);
    let names: Vec<&str> = bindings.wrappers.iter().map(|w| w.c_name.as_str()).collect();
    assert_eq!(names, vec!["aeron_image_fragment_assembler_t", "aeron_thread_t"]);
}

#[test]
fn only_the_untyped_pointer_is_a_context() {
    let args = process_types(vec![
        (s("handler"), s("aeron_notification_t")),
        (s("clientd"), s("* mut aeron_c_void")),
        (s("other"), s("aeron_notification_t")),
        (s("state"), s("* const :: std :: os :: raw :: c_void")),
    ]);
    assert!(args.iter().all(|a| a.processing == ArgProcessing::Default));
    let decls = vec![
        Declaration::Alias {
            name: s("typed_t"),
            text: s("pub type typed_t = ..."),
            callback: Some(rusteron::model::Callback { params: vec![(s("clientd"), s("* mut aeron_c_void"))], return_type: s("()") }),
            docs: vec![],
        },
        Declaration::Alias {
            name: s("nameless_t"),
            text: s("pub type nameless_t = ..."),
            callback: Some(rusteron::model::Callback {
                params: vec![(s("clientd"), s("* mut :: std :: os :: raw :: c_void")), (s(""), s("i32"))],
                return_type: s("()"),
            }),
            docs: vec![],
        },
        Declaration::Alias {
            name: s("good_t"),
            text: s("pub type good_t = ..."),
            callback: Some(rusteron::model::Callback {
                params: vec![(s("clientd"), s("* mut :: std :: os :: raw :: c_void")), (s("n"), s("i32"))],
                return_type: s("()"),
            }),
            docs: vec![],
        },
    ];
    let bindings = extract_bindings(&decls);
    let names: Vec<&str> = bindings.handlers.iter().map(|h| h.c_name.as_str()).collect();
    assert_eq!(names, vec!["good_t"]);
}
