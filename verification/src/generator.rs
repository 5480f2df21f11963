//! The generator: from the declaration model to the source text of the
//! wrappers. The text is made for one wrapper at a time; what is chosen for
//! it (which constructor, which accessors, which methods) is stated apart
//! from how it is written down.

use crate::model::{
    args_view, find_handler, find_member, find_method, find_wrapper, handler_index, handlers_view,
    lemma_key_index, lemma_strings_push, member_index, method_index, methods_view, wrapper_index,
    wrapper_names, wrappers_view, Arg, ArgProcessing, ArgProcessingView, ArgView, Bindings,
    CWrapper, CWrapperView, Handler, HandlerView, Method, MethodView,
};
use crate::parser::{
    handler_wf, is_callback_params,
    default_deny, default_deny_list, is_denied, is_denied_name, is_double_pointer,
    is_double_pointer_type, snake_to_pascal_case, spec_snake_to_pascal_case,
};
use crate::text::{
    after_last, chars_of, escaped, join, join_strings, lines, replace, starts_with, str_after_last,
    str_eq, str_escaped, str_lines, str_replace, str_starts_with, strings_view,
};
use vstd::prelude::*;
use vstd::string::StringExecFns;

verus! {

/// The text of the type of a status code.
pub const C_INT_RETURN_TYPE_STR: &'static str = ":: std :: os :: raw :: c_int";

/// The text of the type of a string that ends in a zero byte.
pub const C_CHAR_STR: &'static str = "* const :: std :: os :: raw :: c_char";

/// The type is that of a status code.
pub open spec fn is_c_int(c_type: Seq<char>) -> bool {
    c_type == C_INT_RETURN_TYPE_STR@
}

/// The type is that of a string that ends in a zero byte.
pub open spec fn is_c_char(c_type: Seq<char>) -> bool {
    c_type == C_CHAR_STR@
}

/// The wrapper that the type stands for, or `-1`: the type is a pointer to
/// the wrapper's record, though not to a pointer, or the record itself.
pub open spec fn wrapper_of_type(c_type: Seq<char>, wrappers: Seq<CWrapperView>) -> int {
    let pointee = wrapper_index(wrappers, after_last(c_type, ' '));
    if starts_with(c_type, "* mut "@) && !is_double_pointer(c_type) && pointee >= 0 {
        pointee
    } else {
        wrapper_index(wrappers, c_type)
    }
}

/// The type that stands in a wrapper's signature for the foreign type
/// `c_type`: the wrapper for a type that has one; a result for a status code,
/// where `convert_errors` asks for it; text for a string; else the type
/// itself.
pub open spec fn new_return_type(
    c_type: Seq<char>,
    wrappers: Seq<CWrapperView>,
    convert_errors: bool,
) -> Seq<char> {
    let w = wrapper_of_type(c_type, wrappers);
    if 0 <= w < wrappers.len() {
        wrappers[w].class_name
    } else if convert_errors && is_c_int(c_type) {
        "Result<i32, AeronCError>"@
    } else if is_c_char(c_type) {
        "&str"@
    } else {
        c_type
    }
}

/// The expression that turns the foreign value `result` of the type `c_type`
/// into the wrapper's value.
pub open spec fn c_to_rs(c_type: Seq<char>, result: Seq<char>, convert_errors: bool) -> Seq<char> {
    if convert_errors && is_c_int(c_type) {
        "if "@ + result + " < 0 { return Err(AeronCError::from_code("@ + result
            + ")); } else { return Ok("@ + result + "); }"@
    } else if is_c_char(c_type) {
        "std::ffi::CStr::from_ptr("@ + result + ").to_str().unwrap()"@
    } else {
        result + ".into()"@
    }
}

/// The expression that turns the wrapper's value `result` into a foreign
/// value of the type `c_type`.
pub open spec fn rs_to_c(c_type: Seq<char>, result: Seq<char>) -> Seq<char> {
    if is_c_char(c_type) {
        "std::ffi::CString::new("@ + result + ").unwrap().into_raw()"@
    } else {
        result + ".into()"@
    }
}

/// A foreign type together with the wrappers that are known: what is needed
/// to say how a value of the type crosses the boundary.
pub struct ReturnType<'a> {
    c_type: String,
    wrappers: &'a Vec<CWrapper>,
}

impl<'a> ReturnType<'a> {
    /// The foreign type.
    pub closed spec fn spec_c_type(&self) -> Seq<char> {
        self.c_type@
    }

    /// The wrappers that are known.
    pub closed spec fn spec_wrappers(&self) -> Seq<CWrapperView> {
        wrappers_view(self.wrappers@)
    }

    pub fn new(c_type: String, wrappers: &'a Vec<CWrapper>) -> (r: Self)
        ensures
            r.spec_c_type() == c_type@,
            r.spec_wrappers() == wrappers_view(wrappers@),
    {
        ReturnType { c_type: c_type, wrappers }
    }

    fn wrapper(&self) -> (r: Option<usize>)
        ensures
            match r {
                Some(i) => i < self.spec_wrappers().len() && i == wrapper_of_type(
                    self.spec_c_type(),
                    self.spec_wrappers(),
                ) && self.wrappers@.len() == self.spec_wrappers().len(),
                None => wrapper_of_type(self.spec_c_type(), self.spec_wrappers()) == -1,
            },
    {
        if str_starts_with(self.c_type.as_str(), "* mut ") && !is_double_pointer_type(
            self.c_type.as_str(),
        ) {
            let pointee = str_after_last(self.c_type.as_str(), ' ');
            match find_wrapper(self.wrappers, pointee.as_str()) {
                Some(i) => {
                    return Some(i);
                },
                None => {},
            }
        }
        find_wrapper(self.wrappers, self.c_type.as_str())
    }

    /// The type that stands in a wrapper's signature for the foreign type.
    pub fn get_new_return_type(&self, convert_errors: bool) -> (r: String)
        ensures
            r@ == new_return_type(self.spec_c_type(), self.spec_wrappers(), convert_errors),
    {
        match self.wrapper() {
            Some(i) => self.wrappers[i].class_name.clone(),
            None => {
                if convert_errors && str_eq(self.c_type.as_str(), C_INT_RETURN_TYPE_STR) {
                    String::from_str("Result<i32, AeronCError>")
                } else if str_eq(self.c_type.as_str(), C_CHAR_STR) {
                    String::from_str("&str")
                } else {
                    self.c_type.clone()
                }
            },
        }
    }

    /// The expression that turns the foreign value `result` into the
    /// wrapper's value.
    pub fn handle_c_to_rs_return(&self, result: &str, convert_errors: bool) -> (r: String)
        ensures
            r@ == c_to_rs(self.spec_c_type(), result@, convert_errors),
    {
        if convert_errors && str_eq(self.c_type.as_str(), C_INT_RETURN_TYPE_STR) {
            let mut r = String::from_str("if ");
            r.append(result);
            r.append(" < 0 { return Err(AeronCError::from_code(");
            r.append(result);
            r.append(")); } else { return Ok(");
            r.append(result);
            r.append("); }");
            r
        } else if str_eq(self.c_type.as_str(), C_CHAR_STR) {
            let mut r = String::from_str("std::ffi::CStr::from_ptr(");
            r.append(result);
            r.append(").to_str().unwrap()");
            r
        } else {
            let mut r = String::from_str(result);
            r.append(".into()");
            r
        }
    }

    /// The expression that turns the wrapper's value `result` into a foreign
    /// value.
    pub fn handle_rs_to_c_return(&self, result: &str) -> (r: String)
        ensures
            r@ == rs_to_c(self.spec_c_type(), result@),
    {
        if str_eq(self.c_type.as_str(), C_CHAR_STR) {
            let mut r = String::from_str("std::ffi::CString::new(");
            r.append(result);
            r.append(").unwrap().into_raw()");
            r
        } else {
            let mut r = String::from_str(result);
            r.append(".into()");
            r
        }
    }
}

/// One line of documentation as an attribute: the tags of the foreign
/// documentation become headings, and the line stands as a string literal.
pub open spec fn doc_line(line: Seq<char>) -> Seq<char> {
    "#[doc = \""@ + escaped(
        replace(replace(line, "@param"@, "\n**param**"@), "@return"@, "\n**return**"@),
    ) + "\"]\n"@
}

/// The first `n` lines as attributes.
pub open spec fn doc_lines(all: Seq<Seq<char>>, n: int) -> Seq<char>
    decreases n,
{
    if n <= 0 {
        Seq::<char>::empty()
    } else {
        doc_lines(all, n - 1) + doc_line(all[n - 1])
    }
}

/// The first `n` texts of the documentation as attributes, line by line.
pub open spec fn docs_text(docs: Seq<Seq<char>>, n: int) -> Seq<char>
    decreases n,
{
    if n <= 0 {
        Seq::<char>::empty()
    } else {
        docs_text(docs, n - 1) + doc_lines(lines(docs[n - 1]), lines(docs[n - 1]).len() as int)
    }
}

/// The documentation as attributes, one for each line.
pub fn get_docs(docs: &Vec<String>) -> (r: String)
    ensures
        r@ == docs_text(strings_view(docs@), docs@.len() as int),
{
    let ghost all = strings_view(docs@);
    let mut out = String::new();
    let mut i: usize = 0;
    while i < docs.len()
        invariant
            i <= docs.len(),
            all == strings_view(docs@),
            out@ == docs_text(all, i as int),
        decreases docs.len() - i,
    {
        let list = str_lines(docs[i].as_str());
        let ghost ls = strings_view(list@);
        let ghost start = out@;
        let mut k: usize = 0;
        assert(start + doc_lines(ls, 0) =~= start);
        while k < list.len()
            invariant
                k <= list.len(),
                ls == strings_view(list@),
                out@ == start + doc_lines(ls, k as int),
            decreases list.len() - k,
        {
            let a = str_replace(list[k].as_str(), "@param", "\n**param**");
            let b = str_replace(a.as_str(), "@return", "\n**return**");
            let e = str_escaped(b.as_str());
            let ghost before = out@;
            out.append("#[doc = \"");
            out.append(e.as_str());
            out.append("\"]\n");
            assert(out@ =~= start + (doc_lines(ls, k as int) + doc_line(ls[k as int])));
            k += 1;
        }
        i += 1;
    }
    out
}

/// One of the parameters is a pointer to a pointer.
pub open spec fn has_double_pointer(args: Seq<ArgView>) -> bool {
    exists|i: int| 0 <= i < args.len() && is_double_pointer((#[trigger] args[i]).c_type)
}

/// The function fills a handle: its first parameter is a pointer to a
/// pointer.
pub open spec fn is_initializer(m: MethodView) -> bool {
    m.arguments.len() > 0 && is_double_pointer(m.arguments[0].c_type)
}

/// The field is reserved: its name starts with an underscore.
pub open spec fn is_hidden(name: Seq<char>) -> bool {
    starts_with(name, "_"@)
}

/// The wrapper holds plain data: no function of it takes a pointer to a
/// pointer, it has fields, and each of them has a name and is not reserved.
pub open spec fn spec_has_default_method(w: CWrapperView) -> bool {
    &&& forall|i: int| 0 <= i < w.methods.len() ==> !has_double_pointer(
        (#[trigger] w.methods[i]).arguments,
    )
    &&& forall|j: int|
        0 <= j < w.fields.len() ==> !is_hidden((#[trigger] w.fields[j]).0) && w.fields[j].0.len()
            > 0
    &&& w.fields.len() > 0
}

/// Whether one of the parameters is a pointer to a pointer.
pub fn any_double_pointer(args: &Vec<Arg>) -> (r: bool)
    ensures
        r == has_double_pointer(args_view(args@)),
{
    let ghost all = args_view(args@);
    let mut i: usize = 0;
    while i < args.len()
        invariant
            i <= args.len(),
            all == args_view(args@),
            forall|j: int| 0 <= j < i ==> !is_double_pointer((#[trigger] all[j]).c_type),
        decreases args.len() - i,
    {
        if is_double_pointer_type(args[i].c_type.as_str()) {
            assert(is_double_pointer(all[i as int].c_type));
            return true;
        }
        i += 1;
    }
    false
}

impl CWrapper {
    /// Whether the wrapper holds plain data.
    pub fn has_default_method(&self) -> (r: bool)
        ensures
            r == spec_has_default_method(self@),
    {
        let mut i: usize = 0;
        while i < self.methods.len()
            invariant
                i <= self.methods.len(),
                forall|j: int|
                    0 <= j < i ==> !has_double_pointer((#[trigger] self@.methods[j]).arguments),
            decreases self.methods.len() - i,
        {
            if any_double_pointer(&self.methods[i].arguments) {
                assert(has_double_pointer(self@.methods[i as int].arguments));
                return false;
            }
            i += 1;
        }
        let mut k: usize = 0;
        while k < self.fields.len()
            invariant
                k <= self.fields.len(),
                forall|j: int|
                    0 <= j < k ==> !is_hidden((#[trigger] self@.fields[j]).0)
                        && self@.fields[j].0.len() > 0,
            decreases self.fields.len() - k,
        {
            if str_starts_with(self.fields[k].0.as_str(), "_") || chars_of(
                self.fields[k].0.as_str(),
            ).len() == 0 {
                assert(is_hidden(self@.fields[k as int].0) || self@.fields[k as int].0.len() == 0);
                return false;
            }
            k += 1;
        }
        self.fields.len() > 0
    }
}

/// The field at `i` gets an accessor: it has a name, is not reserved, and
/// no method of the wrapper has its name.
pub open spec fn is_accessor(w: CWrapperView, i: int) -> bool {
    let name = w.fields[i].0;
    name.len() > 0 && !is_hidden(name) && member_index(w.methods, name) < 0
}

/// The accessor of the field `name` of the type `c_type`.
pub open spec fn accessor_text(
    name: Seq<char>,
    c_type: Seq<char>,
    wrappers: Seq<CWrapperView>,
    convert_errors: bool,
) -> Seq<char> {
    "    #[inline]\n    pub fn "@ + name + "(&self) -> "@ + new_return_type(
        c_type,
        wrappers,
        convert_errors,
    ) + " {\n        unsafe {\n            let result = self."@ + name + ";\n            "@
        + c_to_rs(c_type, "result"@, convert_errors) + "\n        }\n    }\n"@
}

/// The accessors of the first `n` fields.
pub open spec fn accessors_text(
    w: CWrapperView,
    wrappers: Seq<CWrapperView>,
    convert_errors: bool,
    n: int,
) -> Seq<char>
    decreases n,
{
    if n <= 0 {
        Seq::<char>::empty()
    } else if is_accessor(w, n - 1) {
        accessors_text(w, wrappers, convert_errors, n - 1) + accessor_text(
            w.fields[n - 1].0,
            w.fields[n - 1].1,
            wrappers,
            convert_errors,
        )
    } else {
        accessors_text(w, wrappers, convert_errors, n - 1)
    }
}

/// What a parameter of a function is to the method that wraps the function.
#[derive(Debug, Clone, PartialEq, Eq)]
pub enum ArgRole {
    /// The wrapper itself: no parameter of the method.
    Receiver,
    /// Another wrapper, given here by its public name.
    Wrapper(String),
    /// A callback: a parameter whose type implements the callback's interface.
    Callback { interface: String, trampoline: String, generic: String },
    /// The context of the callback `handler_name`: no parameter of the method.
    Context { handler_name: String },
    /// Anything else: handed on as it is.
    Plain,
}

pub enum ArgRoleView {
    Receiver,
    Wrapper(Seq<char>),
    Callback { interface: Seq<char>, trampoline: Seq<char>, generic: Seq<char> },
    Context { handler_name: Seq<char> },
    Plain,
}

impl View for ArgRole {
    type V = ArgRoleView;

    open spec fn view(&self) -> ArgRoleView {
        match self {
            ArgRole::Receiver => ArgRoleView::Receiver,
            ArgRole::Wrapper(c) => ArgRoleView::Wrapper(c@),
            ArgRole::Callback { interface, trampoline, generic } => ArgRoleView::Callback {
                interface: interface@,
                trampoline: trampoline@,
                generic: generic@,
            },
            ArgRole::Context { handler_name } => ArgRoleView::Context {
                handler_name: handler_name@,
            },
            ArgRole::Plain => ArgRoleView::Plain,
        }
    }
}

/// The name of the interface that an implementer of the callback
/// `handler_type` has.
pub open spec fn interface_name(handler_type: Seq<char>) -> Seq<char> {
    spec_snake_to_pascal_case(handler_type) + "Handler"@
}

/// The name of the trampoline of the callback `handler_type`.
pub open spec fn trampoline_name(handler_type: Seq<char>) -> Seq<char> {
    handler_type + "_callback"@
}

/// The role of the parameter `a` in a method of the wrapper of the type
/// `own`. A pointer to a known record is a wrapper; a parameter that is
/// marked as a callback or its context is that, where the callback's
/// signature is among `handlers` and is well-formed.
pub open spec fn arg_role(
    own: Seq<char>,
    a: ArgView,
    wrappers: Seq<CWrapperView>,
    handlers: Seq<HandlerView>,
) -> ArgRoleView {
    let w = if starts_with(a.c_type, "* mut"@) {
        wrapper_index(wrappers, after_last(a.c_type, ' '))
    } else {
        -1
    };
    if 0 <= w < wrappers.len() {
        if wrappers[w].c_name == own {
            ArgRoleView::Receiver
        } else {
            ArgRoleView::Wrapper(wrappers[w].class_name)
        }
    } else {
        match a.processing {
            ArgProcessingView::Handler { handler_name, handler_type, clientd_name, clientd_type } => {
                if handler_index(handlers, handler_type) < 0 || !handler_wf(
                    handlers[handler_index(handlers, handler_type)],
                ) {
                    ArgRoleView::Plain
                } else if a.name == clientd_name && a.c_type == clientd_type {
                    ArgRoleView::Context { handler_name }
                } else {
                    ArgRoleView::Callback {
                        interface: interface_name(handler_type),
                        trampoline: trampoline_name(handler_type),
                        generic: spec_snake_to_pascal_case(a.name) + "Impl"@,
                    }
                }
            },
            ArgProcessingView::Default => ArgRoleView::Plain,
        }
    }
}

/// The type parameter that the parameter brings to the method, where it
/// brings one.
pub open spec fn generic_text(role: ArgRoleView) -> Option<Seq<char>> {
    match role {
        ArgRoleView::Callback { interface, trampoline, generic } => Some(
            generic + ": "@ + interface,
        ),
        _ => None,
    }
}

/// The parameter of the method that stands for the parameter of the
/// function, where one does.
pub open spec fn param_text(role: ArgRoleView, a: ArgView) -> Option<Seq<char>> {
    match role {
        ArgRoleView::Receiver => None,
        ArgRoleView::Wrapper(class) => Some(a.name + ": &"@ + class),
        ArgRoleView::Callback { interface, trampoline, generic } => Some(a.name + ": "@ + generic),
        ArgRoleView::Context { handler_name } => None,
        ArgRoleView::Plain => Some(a.name + ": "@ + a.c_type),
    }
}

/// What the method hands to the function for the parameter: the raw handle
/// of a wrapper; the trampoline for a callback and, for its context, the
/// implementer in a box that is given away; else the parameter itself.
pub open spec fn call_text(role: ArgRoleView, a: ArgView) -> Seq<char> {
    match role {
        ArgRoleView::Receiver => "self.get_inner()"@,
        ArgRoleView::Wrapper(class) => a.name + ".get_inner()"@,
        ArgRoleView::Callback { interface, trampoline, generic } => "Some("@ + trampoline + "::<"@
            + generic + ">)"@,
        ArgRoleView::Context { handler_name } => "Box::into_raw(Box::new("@ + handler_name
            + ")) as *mut ::std::os::raw::c_void"@,
        ArgRoleView::Plain => a.name,
    }
}

/// The type parameters that the first `n` parameters bring.
pub open spec fn generics_of(
    own: Seq<char>,
    args: Seq<ArgView>,
    wrappers: Seq<CWrapperView>,
    handlers: Seq<HandlerView>,
    n: int,
) -> Seq<Seq<char>>
    decreases n,
{
    if n <= 0 {
        Seq::<Seq<char>>::empty()
    } else {
        let rest = generics_of(own, args, wrappers, handlers, n - 1);
        match generic_text(arg_role(own, args[n - 1], wrappers, handlers)) {
            Some(t) => rest.push(t),
            None => rest,
        }
    }
}

/// The method's parameters for the first `n` parameters of the function.
pub open spec fn params_of(
    own: Seq<char>,
    args: Seq<ArgView>,
    wrappers: Seq<CWrapperView>,
    handlers: Seq<HandlerView>,
    n: int,
) -> Seq<Seq<char>>
    decreases n,
{
    if n <= 0 {
        Seq::<Seq<char>>::empty()
    } else {
        let rest = params_of(own, args, wrappers, handlers, n - 1);
        match param_text(arg_role(own, args[n - 1], wrappers, handlers), args[n - 1]) {
            Some(t) => rest.push(t),
            None => rest,
        }
    }
}

/// What the method hands to the function for its first `n` parameters.
pub open spec fn calls_of(
    own: Seq<char>,
    args: Seq<ArgView>,
    wrappers: Seq<CWrapperView>,
    handlers: Seq<HandlerView>,
    n: int,
) -> Seq<Seq<char>>
    decreases n,
{
    if n <= 0 {
        Seq::<Seq<char>>::empty()
    } else {
        calls_of(own, args, wrappers, handlers, n - 1).push(
            call_text(arg_role(own, args[n - 1], wrappers, handlers), args[n - 1]),
        )
    }
}

/// The list between `open` and `close`, its items parted by commas; nothing
/// where the list is empty.
pub open spec fn bracketed(open: Seq<char>, items: Seq<Seq<char>>, close: Seq<char>) -> Seq<char> {
    if items.len() == 0 {
        Seq::<char>::empty()
    } else {
        open + join(items, ", "@) + close
    }
}

/// The method that wraps the function `m` for the wrapper `w`.
pub open spec fn method_text(
    w: CWrapperView,
    m: MethodView,
    wrappers: Seq<CWrapperView>,
    handlers: Seq<HandlerView>,
    convert_errors: bool,
) -> Seq<char> {
    let n = m.arguments.len() as int;
    docs_text(m.docs, m.docs.len() as int) + "    #[inline]\n    pub fn "@ + m.struct_method_name
        + bracketed("<"@, generics_of(w.c_name, m.arguments, wrappers, handlers, n), ">"@)
        + "(&self"@ + bracketed(
        ", "@,
        params_of(w.c_name, m.arguments, wrappers, handlers, n),
        ""@,
    ) + ") -> "@ + new_return_type(m.return_type, wrappers, convert_errors)
        + " {\n        unsafe {\n            let result = "@ + m.fn_name + "("@ + join(
        calls_of(w.c_name, m.arguments, wrappers, handlers, n),
        ", "@,
    ) + ");\n            "@ + c_to_rs(m.return_type, "result"@, convert_errors)
        + "\n        }\n    }\n"@
}

/// The function at `i` becomes a method: none of its parameters is a pointer
/// to a pointer.
pub open spec fn is_method(w: CWrapperView, i: int) -> bool {
    !has_double_pointer(w.methods[i].arguments)
}

/// The methods for the first `n` functions of the wrapper.
pub open spec fn methods_text(
    w: CWrapperView,
    wrappers: Seq<CWrapperView>,
    handlers: Seq<HandlerView>,
    convert_errors: bool,
    n: int,
) -> Seq<char>
    decreases n,
{
    if n <= 0 {
        Seq::<char>::empty()
    } else if is_method(w, n - 1) {
        methods_text(w, wrappers, handlers, convert_errors, n - 1) + method_text(
            w,
            w.methods[n - 1],
            wrappers,
            handlers,
            convert_errors,
        )
    } else {
        methods_text(w, wrappers, handlers, convert_errors, n - 1)
    }
}

/// The role of the parameter `a` in a method of the wrapper of the type `own`.
pub fn role_of(own: &str, a: &Arg, wrappers: &Vec<CWrapper>, handlers: &Vec<Handler>) -> (r:
    ArgRole)
    ensures
        r@ == arg_role(own@, a@, wrappers_view(wrappers@), handlers_view(handlers@)),
{
    if str_starts_with(a.c_type.as_str(), "* mut") {
        let pointee = str_after_last(a.c_type.as_str(), ' ');
        match find_wrapper(wrappers, pointee.as_str()) {
            Some(w) => {
                if str_eq(wrappers[w].c_name.as_str(), own) {
                    return ArgRole::Receiver;
                } else {
                    return ArgRole::Wrapper(wrappers[w].class_name.clone());
                }
            },
            None => {},
        }
    }
    proof {
        lemma_key_index(
            wrapper_names(wrappers_view(wrappers@)),
            after_last(a@.c_type, ' '),
        );
    }
    match &a.processing {
        ArgProcessing::Handler { handler_name, handler_type, clientd_name, clientd_type } => {
            let usable = match find_handler(handlers, handler_type.as_str()) {
                Some(k) => {
                    assert(handlers_view(handlers@)[k as int] == handlers@[k as int]@);
                    is_callback_params(&handlers[k].args)
                },
                None => false,
            };
            if !usable {
                ArgRole::Plain
            } else if str_eq(a.name.as_str(), clientd_name.as_str()) && str_eq(
                a.c_type.as_str(),
                clientd_type.as_str(),
            ) {
                ArgRole::Context { handler_name: handler_name.clone() }
            } else {
                let mut interface = snake_to_pascal_case(handler_type.as_str());
                interface.append("Handler");
                let mut trampoline = handler_type.clone();
                trampoline.append("_callback");
                let mut generic = snake_to_pascal_case(a.name.as_str());
                generic.append("Impl");
                ArgRole::Callback { interface, trampoline, generic }
            }
        },
        ArgProcessing::Default => ArgRole::Plain,
    }
}

fn bracket(open: &str, items: &Vec<String>, close: &str) -> (r: String)
    ensures
        r@ == bracketed(open@, strings_view(items@), close@),
{
    if items.len() == 0 {
        String::new()
    } else {
        let mut r = String::from_str(open);
        let inner = join_strings(items, ", ");
        r.append(inner.as_str());
        r.append(close);
        r
    }
}

fn generic_of(role: &ArgRole) -> (r: Option<String>)
    ensures
        match r {
            Some(t) => generic_text(role@) == Some(t@),
            None => generic_text(role@) is None,
        },
{
    match role {
        ArgRole::Callback { interface, trampoline, generic } => {
            let mut t = generic.clone();
            t.append(": ");
            t.append(interface.as_str());
            Some(t)
        },
        _ => None,
    }
}

fn param_of(role: &ArgRole, a: &Arg) -> (r: Option<String>)
    ensures
        match r {
            Some(t) => param_text(role@, a@) == Some(t@),
            None => param_text(role@, a@) is None,
        },
{
    match role {
        ArgRole::Receiver => None,
        ArgRole::Wrapper(class) => {
            let mut t = a.name.clone();
            t.append(": &");
            t.append(class.as_str());
            Some(t)
        },
        ArgRole::Callback { interface, trampoline, generic } => {
            let mut t = a.name.clone();
            t.append(": ");
            t.append(generic.as_str());
            Some(t)
        },
        ArgRole::Context { handler_name } => None,
        ArgRole::Plain => {
            let mut t = a.name.clone();
            t.append(": ");
            t.append(a.c_type.as_str());
            Some(t)
        },
    }
}

fn call_of(role: &ArgRole, a: &Arg) -> (r: String)
    ensures
        r@ == call_text(role@, a@),
{
    match role {
        ArgRole::Receiver => String::from_str("self.get_inner()"),
        ArgRole::Wrapper(class) => {
            let mut t = a.name.clone();
            t.append(".get_inner()");
            t
        },
        ArgRole::Callback { interface, trampoline, generic } => {
            let mut t = String::from_str("Some(");
            t.append(trampoline.as_str());
            t.append("::<");
            t.append(generic.as_str());
            t.append(">)");
            t
        },
        ArgRole::Context { handler_name } => {
            let mut t = String::from_str("Box::into_raw(Box::new(");
            t.append(handler_name.as_str());
            t.append(")) as *mut ::std::os::raw::c_void");
            t
        },
        ArgRole::Plain => a.name.clone(),
    }
}

impl CWrapper {
    /// The accessors of the wrapper: one for each field that has a name, is
    /// not reserved, and is not shadowed by a method of the same name.
    pub fn generate_fields(&self, wrappers: &Vec<CWrapper>, convert_errors: bool) -> (r: String)
        ensures
            r@ == accessors_text(
                self@,
                wrappers_view(wrappers@),
                convert_errors,
                self@.fields.len() as int,
            ),
    {
        let ghost ws = wrappers_view(wrappers@);
        let mut out = String::new();
        let mut i: usize = 0;
        while i < self.fields.len()
            invariant
                i <= self.fields.len(),
                self@.fields.len() == self.fields.len(),
                ws == wrappers_view(wrappers@),
                out@ == accessors_text(self@, ws, convert_errors, i as int),
            decreases self.fields.len() - i,
        {
            let name = self.fields[i].0.as_str();
            let c_type = &self.fields[i].1;
            assert(self@.fields[i as int] == (name@, c_type@));
            if chars_of(name).len() > 0 && !str_starts_with(name, "_") && find_member(
                &self.methods,
                name,
            ).is_none() {
                let ghost before = out@;
                let conversion = ReturnType::new(c_type.clone(), wrappers);
                let returned = conversion.get_new_return_type(convert_errors);
                let body = conversion.handle_c_to_rs_return("result", convert_errors);
                out.append("    #[inline]\n    pub fn ");
                out.append(name);
                out.append("(&self) -> ");
                out.append(returned.as_str());
                out.append(" {\n        unsafe {\n            let result = self.");
                out.append(name);
                out.append(";\n            ");
                out.append(body.as_str());
                out.append("\n        }\n    }\n");
                assert(out@ =~= before + accessor_text(name@, c_type@, ws, convert_errors));
            }
            i += 1;
        }
        out
    }

    /// The method that wraps the function `method` of this wrapper.
    pub fn generate_method(
        &self,
        method: &Method,
        wrappers: &Vec<CWrapper>,
        handlers: &Vec<Handler>,
        convert_errors: bool,
    ) -> (r: String)
        ensures
            r@ == method_text(
                self@,
                method@,
                wrappers_view(wrappers@),
                handlers_view(handlers@),
                convert_errors,
            ),
    {
        let ghost ws = wrappers_view(wrappers@);
        let ghost hs = handlers_view(handlers@);
        let ghost own = self@.c_name;
        let ghost args = method@.arguments;
        let mut generics: Vec<String> = Vec::new();
        let mut params: Vec<String> = Vec::new();
        let mut calls: Vec<String> = Vec::new();
        assert(strings_view(generics@) =~= Seq::<Seq<char>>::empty());
        assert(strings_view(params@) =~= Seq::<Seq<char>>::empty());
        assert(strings_view(calls@) =~= Seq::<Seq<char>>::empty());
        let mut i: usize = 0;
        while i < method.arguments.len()
            invariant
                i <= method.arguments.len(),
                args == method@.arguments,
                args.len() == method.arguments.len(),
                own == self@.c_name,
                ws == wrappers_view(wrappers@),
                hs == handlers_view(handlers@),
                strings_view(generics@) == generics_of(own, args, ws, hs, i as int),
                strings_view(params@) == params_of(own, args, ws, hs, i as int),
                strings_view(calls@) == calls_of(own, args, ws, hs, i as int),
            decreases method.arguments.len() - i,
        {
            let a = &method.arguments[i];
            assert(args[i as int] == a@);
            let role = role_of(self.c_name.as_str(), a, wrappers, handlers);
            match generic_of(&role) {
                Some(t) => {
                    proof {
                        lemma_strings_push(generics@, t);
                    }
                    generics.push(t);
                },
                None => {},
            }
            match param_of(&role, a) {
                Some(t) => {
                    proof {
                        lemma_strings_push(params@, t);
                    }
                    params.push(t);
                },
                None => {},
            }
            let c = call_of(&role, a);
            proof {
                lemma_strings_push(calls@, c);
            }
            calls.push(c);
            i += 1;
        }
        let conversion = ReturnType::new(method.return_type.clone(), wrappers);
        let returned = conversion.get_new_return_type(convert_errors);
        let body = conversion.handle_c_to_rs_return("result", convert_errors);
        let generic_list = bracket("<", &generics, ">");
        let param_list = bracket(", ", &params, "");
        let call_list = join_strings(&calls, ", ");
        let mut out = get_docs(&method.docs);
        out.append("    #[inline]\n    pub fn ");
        out.append(method.struct_method_name.as_str());
        out.append(generic_list.as_str());
        out.append("(&self");
        out.append(param_list.as_str());
        out.append(") -> ");
        out.append(returned.as_str());
        out.append(" {\n        unsafe {\n            let result = ");
        out.append(method.fn_name.as_str());
        out.append("(");
        out.append(call_list.as_str());
        out.append(");\n            ");
        out.append(body.as_str());
        out.append("\n        }\n    }\n");
        out
    }

    /// The methods of the wrapper: one for each function of which no
    /// parameter is a pointer to a pointer.
    pub fn generate_methods(
        &self,
        wrappers: &Vec<CWrapper>,
        handlers: &Vec<Handler>,
        convert_errors: bool,
    ) -> (r: String)
        ensures
            r@ == methods_text(
                self@,
                wrappers_view(wrappers@),
                handlers_view(handlers@),
                convert_errors,
                self@.methods.len() as int,
            ),
    {
        let ghost ws = wrappers_view(wrappers@);
        let ghost hs = handlers_view(handlers@);
        let mut out = String::new();
        let mut i: usize = 0;
        while i < self.methods.len()
            invariant
                i <= self.methods.len(),
                self@.methods.len() == self.methods.len(),
                ws == wrappers_view(wrappers@),
                hs == handlers_view(handlers@),
                out@ == methods_text(self@, ws, hs, convert_errors, i as int),
            decreases self.methods.len() - i,
        {
            assert(self@.methods[i as int] == self.methods@[i as int]@);
            if !any_double_pointer(&self.methods[i].arguments) {
                let text = self.generate_method(&self.methods[i], wrappers, handlers, convert_errors);
                out.append(text.as_str());
            }
            i += 1;
        }
        out
    }
}

/// The name of the function that releases what the function `fn_name`
/// makes: `_init` reads `_close`, `_create` reads `_destroy`, and `_add_`
/// reads `_remove_`.
pub open spec fn close_name(fn_name: Seq<char>) -> Seq<char> {
    replace(
        replace(replace(fn_name, "_init"@, "_close"@), "_create"@, "_destroy"@),
        "_add_"@,
        "_remove_"@,
    )
}

/// The name of the constructor that wraps the initializer called `member`.
pub open spec fn constructor_name(member: Seq<char>) -> Seq<char> {
    replace(replace(member, "init"@, "new"@), "create"@, "new"@)
}

/// The function can release under the name `name`: it has that name and
/// returns a status code.
pub open spec fn is_close_candidate(m: MethodView, name: Seq<char>) -> bool {
    m.fn_name == name && is_c_int(m.return_type)
}

/// How many of the first `n` functions can release under the name `name`.
pub open spec fn candidate_count(methods: Seq<MethodView>, name: Seq<char>, n: int) -> int
    decreases n,
{
    if n <= 0 {
        0
    } else if is_close_candidate(methods[n - 1], name) {
        candidate_count(methods, name, n - 1) + 1
    } else {
        candidate_count(methods, name, n - 1)
    }
}

/// The last of the first `n` functions that can release under the name
/// `name`, or `-1`.
pub open spec fn last_candidate(methods: Seq<MethodView>, name: Seq<char>, n: int) -> int
    decreases n,
{
    if n <= 0 {
        -1
    } else if is_close_candidate(methods[n - 1], name) {
        n - 1
    } else {
        last_candidate(methods, name, n - 1)
    }
}

/// The function that releases what the initializer at `i` makes, or `-1`:
/// the one function of the wrapper that has the name derived from the
/// initializer's and returns a status code. Where the derived name is the
/// initializer's own, or no function or more than one fits, there is none.
pub open spec fn paired_close(w: CWrapperView, i: int) -> int {
    let m = w.methods[i];
    let name = close_name(m.fn_name);
    if 0 <= i < w.methods.len() && is_initializer(m) && name != m.fn_name && candidate_count(
        w.methods,
        name,
        w.methods.len() as int,
    ) == 1 {
        last_candidate(w.methods, name, w.methods.len() as int)
    } else {
        -1
    }
}

/// What the counting of candidates says of them.
pub proof fn lemma_candidates(methods: Seq<MethodView>, name: Seq<char>, n: int)
    requires
        0 <= n <= methods.len(),
    ensures
        0 <= candidate_count(methods, name, n) <= n,
        -1 <= last_candidate(methods, name, n) < n,
        last_candidate(methods, name, n) >= 0 <==> candidate_count(methods, name, n) >= 1,
        last_candidate(methods, name, n) >= 0 ==> is_close_candidate(
            methods[last_candidate(methods, name, n)],
            name,
        ),
        candidate_count(methods, name, n) == 1 ==> forall|j: int|
            0 <= j < n && is_close_candidate(#[trigger] methods[j], name) ==> j == last_candidate(
                methods,
                name,
                n,
            ),
        candidate_count(methods, name, n) == 0 ==> forall|j: int|
            0 <= j < n ==> !is_close_candidate(#[trigger] methods[j], name),
    decreases n,
{
    if n > 0 {
        lemma_candidates(methods, name, n - 1);
    }
}

/// A constructor pairs an initializer with the one function that releases
/// what it makes: the function with the derived name, which is not the
/// initializer and returns a status code. No other function of the wrapper
/// fits.
pub proof fn lemma_paired_close(w: CWrapperView, i: int)
    requires
        0 <= i < w.methods.len(),
        paired_close(w, i) >= 0,
    ensures
        0 <= paired_close(w, i) < w.methods.len(),
        paired_close(w, i) != i,
        is_initializer(w.methods[i]),
        w.methods[paired_close(w, i)].fn_name == close_name(w.methods[i].fn_name),
        is_c_int(w.methods[paired_close(w, i)].return_type),
        forall|j: int|
            0 <= j < w.methods.len() && is_close_candidate(
                #[trigger] w.methods[j],
                close_name(w.methods[i].fn_name),
            ) ==> j == paired_close(w, i),
{
    lemma_candidates(w.methods, close_name(w.methods[i].fn_name), w.methods.len() as int);
}

/// The releasing function of a constructor is handed what the initializer
/// made: the initializer gets the slot, and the releasing function the handle
/// in that slot, or the slot itself where it takes a pointer to a pointer.
pub proof fn lemma_close_gets_the_handle(m: MethodView, close: MethodView, n: int, k: int)
    requires
        1 <= n <= m.arguments.len(),
        1 <= k <= close.arguments.len(),
    ensures
        init_calls(m.arguments, n).len() == n,
        init_calls(m.arguments, n)[0] == "ctx"@,
        close_calls(close.arguments, k).len() == k,
        close_calls(close.arguments, k)[0] == (if is_double_pointer(close.arguments[0].c_type) {
            "ctx"@
        } else {
            "*ctx"@
        }),
    decreases n + k,
{
    if n > 1 {
        lemma_close_gets_the_handle(m, close, n - 1, k);
    } else if k > 1 {
        lemma_close_gets_the_handle(m, close, n, k - 1);
    }
}

/// What the initializer is handed for its first `n` parameters: the slot,
/// then a copy of each of the constructor's parameters.
pub open spec fn init_calls(args: Seq<ArgView>, n: int) -> Seq<Seq<char>>
    decreases n,
{
    if n <= 0 {
        Seq::<Seq<char>>::empty()
    } else if n == 1 {
        seq!["ctx"@]
    } else {
        init_calls(args, n - 1).push(args[n - 1].name + ".clone()"@)
    }
}

/// What the releasing function is handed for its first `n` parameters: the
/// handle that the initializer put into the slot (the slot itself where the
/// function takes a pointer to a pointer), then a copy of each parameter.
pub open spec fn close_calls(args: Seq<ArgView>, n: int) -> Seq<Seq<char>>
    decreases n,
{
    if n <= 0 {
        Seq::<Seq<char>>::empty()
    } else if n == 1 {
        if is_double_pointer(args[0].c_type) {
            seq!["ctx"@]
        } else {
            seq!["*ctx"@]
        }
    } else {
        close_calls(args, n - 1).push(args[n - 1].name + ".clone()"@)
    }
}

/// The constructor's parameters for the first `n` parameters of the
/// initializer: all but the slot.
pub open spec fn new_params(args: Seq<ArgView>, n: int) -> Seq<Seq<char>>
    decreases n,
{
    if n <= 1 {
        Seq::<Seq<char>>::empty()
    } else {
        new_params(args, n - 1).push(args[n - 1].name + ": "@ + args[n - 1].c_type)
    }
}

/// The constructor that runs the initializer `m` and releases with `close`.
pub open spec fn constructor_text(m: MethodView, close: MethodView) -> Seq<char> {
    docs_text(m.docs, m.docs.len() as int) + "    pub fn "@ + constructor_name(
        m.struct_method_name,
    ) + "("@ + join(new_params(m.arguments, m.arguments.len() as int), ", "@)
        + ") -> Result<Self, AeronCError> {\n        let resource = ManagedCResource::new(\n            move |ctx| unsafe { "@
        + m.fn_name + "("@ + join(init_calls(m.arguments, m.arguments.len() as int), ", "@)
        + ") },\n            Some(Box::new(move |ctx| unsafe { "@ + close.fn_name + "("@ + join(
        close_calls(close.arguments, close.arguments.len() as int),
        ", "@,
    )
        + ") })),\n            false,\n            None,\n        )?;\n        Ok(Self { inner: std::rc::Rc::new(resource) })\n    }\n"@
}

/// The constructors for the first `n` functions of the wrapper: one for each
/// initializer that has a releasing function.
pub open spec fn constructors_text(w: CWrapperView, n: int) -> Seq<char>
    decreases n,
{
    if n <= 0 {
        Seq::<char>::empty()
    } else if 0 <= paired_close(w, n - 1) < w.methods.len() {
        constructors_text(w, n - 1) + constructor_text(
            w.methods[n - 1],
            w.methods[paired_close(w, n - 1)],
        )
    } else {
        constructors_text(w, n - 1)
    }
}

/// One of the first `n` functions of the wrapper is an initializer with a
/// releasing function.
pub open spec fn any_paired(w: CWrapperView, n: int) -> bool
    decreases n,
{
    if n <= 0 {
        false
    } else {
        0 <= paired_close(w, n - 1) < w.methods.len() || any_paired(w, n - 1)
    }
}

/// The constructor that makes a record of zero bytes.
pub open spec fn zeroed_text(c_name: Seq<char>) -> Seq<char> {
    "    #[inline]\n    pub fn new_zeroed() -> Result<Self, AeronCError> {\n        let resource = ManagedCResource::new(\n            move |ctx| {\n                let inst: "@
        + c_name + " = unsafe { std::mem::zeroed() };\n                let inner_ptr: *mut "@
        + c_name
        + " = Box::into_raw(Box::new(inst));\n                unsafe { *ctx = inner_ptr };\n                0\n            },\n            None,\n            true,\n            None,\n        )?;\n        Ok(Self { inner: std::rc::Rc::new(resource) })\n    }\n"@
}

/// The constructor's parameters for the first `n` fields.
pub open spec fn field_params(fields: Seq<(Seq<char>, Seq<char>)>, n: int) -> Seq<Seq<char>>
    decreases n,
{
    if n <= 0 {
        Seq::<Seq<char>>::empty()
    } else {
        field_params(fields, n - 1).push(fields[n - 1].0 + ": "@ + fields[n - 1].1)
    }
}

/// How the first `n` fields of the record are filled from the parameters.
pub open spec fn field_inits(fields: Seq<(Seq<char>, Seq<char>)>, n: int) -> Seq<Seq<char>>
    decreases n,
{
    if n <= 0 {
        Seq::<Seq<char>>::empty()
    } else {
        field_inits(fields, n - 1).push(fields[n - 1].0 + ": "@ + fields[n - 1].0 + ".clone()"@)
    }
}

/// The constructor that makes a record from a value for each field.
pub open spec fn field_constructor_text(w: CWrapperView) -> Seq<char> {
    "    #[inline]\n    pub fn new("@ + join(field_params(w.fields, w.fields.len() as int), ", "@)
        + ") -> Result<Self, AeronCError> {\n        let resource = ManagedCResource::new(\n            move |ctx| {\n                let inst = "@
        + w.c_name + " { "@ + join(field_inits(w.fields, w.fields.len() as int), ", "@)
        + " };\n                let inner_ptr: *mut "@ + w.c_name
        + " = Box::into_raw(Box::new(inst));\n                unsafe { *ctx = inner_ptr };\n                0\n            },\n            None,\n            true,\n            None,\n        )?;\n        Ok(Self { inner: std::rc::Rc::new(resource) })\n    }\n"@
}

/// The constructors of the wrapper. Each initializer with a releasing
/// function gives one. Where there is no such pair, the wrapper can be made
/// of zero bytes, and from a value for each field where it holds plain data.
pub open spec fn constructor_block(w: CWrapperView) -> Seq<char> {
    if any_paired(w, w.methods.len() as int) {
        constructors_text(w, w.methods.len() as int)
    } else if spec_has_default_method(w) {
        field_constructor_text(w) + zeroed_text(w.c_name)
    } else {
        zeroed_text(w.c_name)
    }
}

/// The one function among `methods` that can release under the name `name`.
pub fn find_close(methods: &Vec<Method>, name: &str) -> (r: Option<usize>)
    ensures
        match r {
            Some(k) => k < methods.len() && candidate_count(
                methods_view(methods@),
                name@,
                methods@.len() as int,
            ) == 1 && k == last_candidate(methods_view(methods@), name@, methods@.len() as int),
            None => candidate_count(methods_view(methods@), name@, methods@.len() as int) != 1,
        },
{
    let ghost ms = methods_view(methods@);
    let mut count: usize = 0;
    let mut last: Option<usize> = None;
    let mut i: usize = 0;
    while i < methods.len()
        invariant
            i <= methods.len(),
            ms == methods_view(methods@),
            count <= i,
            count == candidate_count(ms, name@, i as int),
            match last {
                Some(k) => k < i && k == last_candidate(ms, name@, i as int),
                None => last_candidate(ms, name@, i as int) == -1,
            },
        decreases methods.len() - i,
    {
        assert(ms[i as int] == methods@[i as int]@);
        if str_eq(methods[i].fn_name.as_str(), name) && str_eq(methods[i].return_type.as_str(), C_INT_RETURN_TYPE_STR) {
            count += 1;
            last = Some(i);
        }
        i += 1;
    }
    proof {
        lemma_candidates(ms, name@, methods@.len() as int);
    }
    if count == 1 {
        last
    } else {
        None
    }
}

/// The name of the function that releases what the function `fn_name` makes.
pub fn close_name_of(fn_name: &str) -> (r: String)
    ensures
        r@ == close_name(fn_name@),
{
    let a = str_replace(fn_name, "_init", "_close");
    let b = str_replace(a.as_str(), "_create", "_destroy");
    str_replace(b.as_str(), "_add_", "_remove_")
}

fn push_text(list: &mut Vec<String>, text: String)
    ensures
        strings_view(final(list)@) == strings_view(old(list)@).push(text@),
{
    proof {
        lemma_strings_push(list@, text);
    }
    list.push(text);
}

fn suffixed(name: &str, suffix: &str) -> (r: String)
    ensures
        r@ == name@ + suffix@,
{
    let mut t = String::from_str(name);
    t.append(suffix);
    t
}

fn typed(name: &str, c_type: &str) -> (r: String)
    ensures
        r@ == name@ + ": "@ + c_type@,
{
    let mut t = String::from_str(name);
    t.append(": ");
    t.append(c_type);
    t
}

fn joined(items: &Vec<String>) -> (r: String)
    ensures
        r@ == join(strings_view(items@), ", "@),
{
    let r = join_strings(items, ", ");
    r
}

impl CWrapper {
    /// The function that releases what the initializer at `i` makes.
    pub fn close_of(&self, i: usize) -> (r: Option<usize>)
        ensures
            match r {
                Some(k) => k < self.methods.len() && k == paired_close(self@, i as int),
                None => paired_close(self@, i as int) == -1,
            },
    {
        assert(self@.methods.len() == self.methods@.len());
        if i >= self.methods.len() {
            return None;
        }
        let m = &self.methods[i];
        assert(self@.methods[i as int] == m@);
        if m.arguments.len() == 0 || !is_double_pointer_type(m.arguments[0].c_type.as_str()) {
            assert(m.arguments.len() > 0 ==> m@.arguments[0] == m.arguments@[0]@);
            return None;
        }
        assert(m@.arguments[0] == m.arguments@[0]@);
        let name = close_name_of(m.fn_name.as_str());
        if str_eq(name.as_str(), m.fn_name.as_str()) {
            return None;
        }
        let r = find_close(&self.methods, name.as_str());
        proof {
            lemma_candidates(self@.methods, name@, self@.methods.len() as int);
        }
        r
    }

    fn constructor(&self, i: usize, k: usize) -> (r: String)
        requires
            i < self.methods.len(),
            k < self.methods.len(),
        ensures
            r@ == constructor_text(self@.methods[i as int], self@.methods[k as int]),
    {
        let m = &self.methods[i];
        let close = &self.methods[k];
        assert(self@.methods[i as int] == m@);
        assert(self@.methods[k as int] == close@);
        let ghost args = m@.arguments;
        let ghost cargs = close@.arguments;
        let mut params: Vec<String> = Vec::new();
        let mut inits: Vec<String> = Vec::new();
        let mut closes: Vec<String> = Vec::new();
        assert(strings_view(params@) =~= Seq::<Seq<char>>::empty());
        assert(strings_view(inits@) =~= Seq::<Seq<char>>::empty());
        assert(strings_view(closes@) =~= Seq::<Seq<char>>::empty());
        let mut j: usize = 0;
        while j < m.arguments.len()
            invariant
                j <= m.arguments.len(),
                args == m@.arguments,
                args.len() == m.arguments.len(),
                strings_view(params@) == new_params(args, j as int),
                strings_view(inits@) == init_calls(args, j as int),
            decreases m.arguments.len() - j,
        {
            let a = &m.arguments[j];
            assert(args[j as int] == a@);
            if j == 0 {
                push_text(&mut inits, String::from_str("ctx"));
                assert(strings_view(inits@) =~= seq!["ctx"@]);
            } else {
                push_text(&mut inits, suffixed(a.name.as_str(), ".clone()"));
                push_text(&mut params, typed(a.name.as_str(), a.c_type.as_str()));
            }
            j += 1;
        }
        let mut c: usize = 0;
        while c < close.arguments.len()
            invariant
                c <= close.arguments.len(),
                cargs == close@.arguments,
                cargs.len() == close.arguments.len(),
                strings_view(closes@) == close_calls(cargs, c as int),
            decreases close.arguments.len() - c,
        {
            let a = &close.arguments[c];
            assert(cargs[c as int] == a@);
            if c == 0 {
                if is_double_pointer_type(a.c_type.as_str()) {
                    push_text(&mut closes, String::from_str("ctx"));
                    assert(strings_view(closes@) =~= seq!["ctx"@]);
                } else {
                    push_text(&mut closes, String::from_str("*ctx"));
                    assert(strings_view(closes@) =~= seq!["*ctx"@]);
                }
            } else {
                push_text(&mut closes, suffixed(a.name.as_str(), ".clone()"));
            }
            c += 1;
        }
        let a = str_replace(m.struct_method_name.as_str(), "init", "new");
        let name = str_replace(a.as_str(), "create", "new");
        let param_list = joined(&params);
        let init_list = joined(&inits);
        let close_list = joined(&closes);
        let mut out = get_docs(&m.docs);
        out.append("    pub fn ");
        out.append(name.as_str());
        out.append("(");
        out.append(param_list.as_str());
        out.append(
            ") -> Result<Self, AeronCError> {\n        let resource = ManagedCResource::new(\n            move |ctx| unsafe { ",
        );
        out.append(m.fn_name.as_str());
        out.append("(");
        out.append(init_list.as_str());
        out.append(") },\n            Some(Box::new(move |ctx| unsafe { ");
        out.append(close.fn_name.as_str());
        out.append("(");
        out.append(close_list.as_str());
        out.append(
            ") })),\n            false,\n            None,\n        )?;\n        Ok(Self { inner: std::rc::Rc::new(resource) })\n    }\n",
        );
        out
    }

    fn zeroed_constructor(&self) -> (r: String)
        ensures
            r@ == zeroed_text(self@.c_name),
    {
        let mut out = String::from_str(
            "    #[inline]\n    pub fn new_zeroed() -> Result<Self, AeronCError> {\n        let resource = ManagedCResource::new(\n            move |ctx| {\n                let inst: ",
        );
        out.append(self.c_name.as_str());
        out.append(" = unsafe { std::mem::zeroed() };\n                let inner_ptr: *mut ");
        out.append(self.c_name.as_str());
        out.append(
            " = Box::into_raw(Box::new(inst));\n                unsafe { *ctx = inner_ptr };\n                0\n            },\n            None,\n            true,\n            None,\n        )?;\n        Ok(Self { inner: std::rc::Rc::new(resource) })\n    }\n",
        );
        out
    }

    fn field_constructor(&self) -> (r: String)
        ensures
            r@ == field_constructor_text(self@),
    {
        let ghost fields = self@.fields;
        let mut params: Vec<String> = Vec::new();
        let mut inits: Vec<String> = Vec::new();
        assert(strings_view(params@) =~= Seq::<Seq<char>>::empty());
        assert(strings_view(inits@) =~= Seq::<Seq<char>>::empty());
        let mut j: usize = 0;
        while j < self.fields.len()
            invariant
                j <= self.fields.len(),
                fields == self@.fields,
                fields.len() == self.fields.len(),
                strings_view(params@) == field_params(fields, j as int),
                strings_view(inits@) == field_inits(fields, j as int),
            decreases self.fields.len() - j,
        {
            let name = self.fields[j].0.as_str();
            let c_type = self.fields[j].1.as_str();
            assert(fields[j as int] == (name@, c_type@));
            push_text(&mut params, typed(name, c_type));
            let mut init = String::from_str(name);
            init.append(": ");
            init.append(name);
            init.append(".clone()");
            push_text(&mut inits, init);
            j += 1;
        }
        let param_list = joined(&params);
        let init_list = joined(&inits);
        let mut out = String::from_str("    #[inline]\n    pub fn new(");
        out.append(param_list.as_str());
        out.append(
            ") -> Result<Self, AeronCError> {\n        let resource = ManagedCResource::new(\n            move |ctx| {\n                let inst = ",
        );
        out.append(self.c_name.as_str());
        out.append(" { ");
        out.append(init_list.as_str());
        out.append(" };\n                let inner_ptr: *mut ");
        out.append(self.c_name.as_str());
        out.append(
            " = Box::into_raw(Box::new(inst));\n                unsafe { *ctx = inner_ptr };\n                0\n            },\n            None,\n            true,\n            None,\n        )?;\n        Ok(Self { inner: std::rc::Rc::new(resource) })\n    }\n",
        );
        out
    }

    /// The constructors of the wrapper.
    pub fn generate_constructor(&self) -> (r: String)
        ensures
            r@ == constructor_block(self@),
    {
        let mut out = String::new();
        let mut paired = false;
        let mut i: usize = 0;
        while i < self.methods.len()
            invariant
                i <= self.methods.len(),
                self@.methods.len() == self.methods.len(),
                out@ == constructors_text(self@, i as int),
                paired == any_paired(self@, i as int),
            decreases self.methods.len() - i,
        {
            match self.close_of(i) {
                Some(k) => {
                    let text = self.constructor(i, k);
                    out.append(text.as_str());
                    paired = true;
                },
                None => {},
            }
            i += 1;
        }
        if paired {
            out
        } else if self.has_default_method() {
            let mut both = self.field_constructor();
            let zeroed = self.zeroed_constructor();
            both.append(zeroed.as_str());
            both
        } else {
            self.zeroed_constructor()
        }
    }
}

/// The text of the runtime that the wrappers rest on: the kinds of errors
/// and the error that carries a status code, the managed resource with its
/// release procedure, its probe and what it retains, and the box that hands
/// a callback's state to foreign code.
pub const COMMON_CODE: &'static str = "\n/// What a status code of the foreign library stands for.\n#[derive(Debug, PartialOrd, Eq, PartialEq, Clone)]\npub enum AeronErrorType {\n    NullOrNotConnected,\n    ClientErrorDriverTimeout,\n    ClientErrorClientTimeout,\n    ClientErrorConductorServiceTimeout,\n    ClientErrorBufferFull,\n    PublicationBackPressured,\n    PublicationAdminAction,\n    PublicationClosed,\n    PublicationMaxPositionExceeded,\n    PublicationError,\n    TimedOut,\n    Unknown(i32),\n}\n\nimpl AeronErrorType {\n    pub fn code(&self) -> i32 {\n        match self {\n            AeronErrorType::NullOrNotConnected => -1,\n            AeronErrorType::ClientErrorDriverTimeout => -1000,\n            AeronErrorType::ClientErrorClientTimeout => -1001,\n            AeronErrorType::ClientErrorConductorServiceTimeout => -1002,\n            AeronErrorType::ClientErrorBufferFull => -1003,\n            AeronErrorType::PublicationBackPressured => -2,\n            AeronErrorType::PublicationAdminAction => -3,\n            AeronErrorType::PublicationClosed => -4,\n            AeronErrorType::PublicationMaxPositionExceeded => -5,\n            AeronErrorType::PublicationError => -6,\n            AeronErrorType::TimedOut => -234324,\n            AeronErrorType::Unknown(code) => *code,\n        }\n    }\n\n    pub fn from_code(code: i32) -> Self {\n        match code {\n            -1 => AeronErrorType::NullOrNotConnected,\n            -1000 => AeronErrorType::ClientErrorDriverTimeout,\n            -1001 => AeronErrorType::ClientErrorClientTimeout,\n            -1002 => AeronErrorType::ClientErrorConductorServiceTimeout,\n            -1003 => AeronErrorType::ClientErrorBufferFull,\n            -2 => AeronErrorType::PublicationBackPressured,\n            -3 => AeronErrorType::PublicationAdminAction,\n            -4 => AeronErrorType::PublicationClosed,\n            -5 => AeronErrorType::PublicationMaxPositionExceeded,\n            -6 => AeronErrorType::PublicationError,\n            -234324 => AeronErrorType::TimedOut,\n            _ => AeronErrorType::Unknown(code),\n        }\n    }\n\n    pub fn is_back_pressured(&self) -> bool {\n        self == &AeronErrorType::PublicationBackPressured\n    }\n\n    pub fn is_admin_action(&self) -> bool {\n        self == &AeronErrorType::PublicationAdminAction\n    }\n\n    pub fn is_back_pressured_or_admin_action(&self) -> bool {\n        self.is_back_pressured() || self.is_admin_action()\n    }\n}\n\n/// An error of the foreign library: the status code that it returned.\n#[derive(Eq, PartialEq, Clone)]\npub struct AeronCError {\n    pub code: i32,\n}\n\nimpl AeronCError {\n    pub fn from_code(code: i32) -> Self {\n        AeronCError { code }\n    }\n\n    pub fn kind(&self) -> AeronErrorType {\n        AeronErrorType::from_code(self.code)\n    }\n\n    pub fn is_back_pressured(&self) -> bool {\n        self.kind().is_back_pressured()\n    }\n\n    pub fn is_admin_action(&self) -> bool {\n        self.kind().is_admin_action()\n    }\n\n    pub fn is_back_pressured_or_admin_action(&self) -> bool {\n        self.kind().is_back_pressured_or_admin_action()\n    }\n}\n\nimpl From<AeronErrorType> for AeronCError {\n    fn from(value: AeronErrorType) -> Self {\n        AeronCError::from_code(value.code())\n    }\n}\n\nimpl std::fmt::Display for AeronCError {\n    fn fmt(&self, f: &mut std::fmt::Formatter<'_>) -> std::fmt::Result {\n        write!(f, \"Aeron error {}: {:?}\", self.code, self.kind())\n    }\n}\n\nimpl std::fmt::Debug for AeronCError {\n    fn fmt(&self, f: &mut std::fmt::Formatter<'_>) -> std::fmt::Result {\n        f.debug_struct(\"AeronCError\").field(\"code\", &self.code).field(\"kind\", &self.kind()).finish()\n    }\n}\n\nimpl std::error::Error for AeronCError {}\n\n/// A raw handle of the foreign library, owned or borrowed, with the\n/// procedure that releases it. The procedure runs at most once; a borrowed\n/// handle is never released here.\npub struct ManagedCResource<T> {\n    resource: *mut T,\n    cleanup: Option<Box<dyn FnMut(*mut *mut T) -> i32>>,\n    cleanup_struct: bool,\n    borrowed: bool,\n    close_already_called: std::cell::Cell<bool>,\n    check_for_is_closed: Option<Box<dyn Fn(*mut T) -> bool>>,\n    auto_close: std::cell::Cell<bool>,\n    dependencies: std::cell::RefCell<Vec<std::rc::Rc<dyn std::any::Any>>>,\n}\n\nimpl<T> std::fmt::Debug for ManagedCResource<T> {\n    fn fmt(&self, f: &mut std::fmt::Formatter<'_>) -> std::fmt::Result {\n        let mut debug_struct = f.debug_struct(\"ManagedCResource\");\n        if !self.is_closed_already_called() {\n            debug_struct.field(\"resource\", &self.resource);\n        }\n        debug_struct.finish()\n    }\n}\n\nimpl<T> ManagedCResource<T> {\n    pub fn new(\n        init: impl FnOnce(*mut *mut T) -> i32,\n        cleanup: Option<Box<dyn FnMut(*mut *mut T) -> i32>>,\n        cleanup_struct: bool,\n        check_for_is_closed: Option<Box<dyn Fn(*mut T) -> bool>>,\n    ) -> Result<Self, AeronCError> {\n        let mut resource: *mut T = std::ptr::null_mut();\n        let result = init(&mut resource);\n        if result < 0 || resource.is_null() {\n            return Err(AeronCError::from_code(result));\n        }\n        Ok(Self {\n            resource,\n            cleanup,\n            cleanup_struct,\n            borrowed: false,\n            close_already_called: std::cell::Cell::new(false),\n            check_for_is_closed,\n            auto_close: std::cell::Cell::new(false),\n            dependencies: std::cell::RefCell::new(vec![]),\n        })\n    }\n\n    pub fn new_borrowed(\n        value: *const T,\n        check_for_is_closed: Option<Box<dyn Fn(*mut T) -> bool>>,\n    ) -> Self {\n        Self {\n            resource: value as *mut T,\n            cleanup: None,\n            cleanup_struct: false,\n            borrowed: true,\n            close_already_called: std::cell::Cell::new(false),\n            check_for_is_closed,\n            auto_close: std::cell::Cell::new(false),\n            dependencies: std::cell::RefCell::new(vec![]),\n        }\n    }\n\n    fn closed_elsewhere(&self) -> bool {\n        !self.resource.is_null() && self.check_for_is_closed.as_ref().map_or(false, |f| f(self.resource))\n    }\n\n    pub fn is_closed_already_called(&self) -> bool {\n        self.close_already_called.get() || self.resource.is_null() || self.closed_elsewhere()\n    }\n\n    pub fn set_auto_close(&self, auto_close: bool) {\n        self.auto_close.set(auto_close);\n    }\n\n    #[inline(always)]\n    pub fn get(&self) -> *mut T {\n        self.resource\n    }\n\n    #[inline(always)]\n    pub fn get_mut(&self) -> &mut T {\n        unsafe { &mut *self.resource }\n    }\n\n    pub fn add_dependency<D: std::any::Any>(&self, dep: D) {\n        let kept = match (&dep as &dyn std::any::Any).downcast_ref::<std::rc::Rc<dyn std::any::Any>>() {\n            Some(shared) => shared.clone(),\n            None => std::rc::Rc::new(dep),\n        };\n        self.dependencies.borrow_mut().push(kept);\n    }\n\n    pub fn get_dependency<V: Clone + 'static>(&self) -> Option<V> {\n        self.dependencies.borrow().iter().filter_map(|x| x.as_ref().downcast_ref::<V>().cloned()).next()\n    }\n\n    pub fn close(&mut self) -> Result<(), AeronCError> {\n        if self.close_already_called.get() {\n            return Ok(());\n        }\n        self.close_already_called.set(true);\n        let already_closed = self.closed_elsewhere();\n        if let Some(mut cleanup) = self.cleanup.take() {\n            if !self.resource.is_null() {\n                if !already_closed {\n                    let result = cleanup(&mut self.resource);\n                    if result < 0 {\n                        return Err(AeronCError::from_code(result));\n                    }\n                }\n                self.resource = std::ptr::null_mut();\n            }\n        }\n        Ok(())\n    }\n}\n\nimpl<T> Drop for ManagedCResource<T> {\n    fn drop(&mut self) {\n        if !self.resource.is_null() && (!self.borrowed || self.auto_close.get()) {\n            let resource = self.resource;\n            let _ = self.close();\n            self.close_already_called.set(true);\n            if self.cleanup_struct {\n                self.resource = std::ptr::null_mut();\n                unsafe {\n                    let _ = Box::from_raw(resource);\n                }\n            }\n        }\n    }\n}\n\n/// A value handed over to the foreign library as the state of a callback.\n/// It is not given up when the handler goes: `release` does that.\npub struct Handler<T> {\n    raw_ptr: *mut T,\n    should_drop: bool,\n}\n\nunsafe impl<T> Send for Handler<T> {}\nunsafe impl<T> Sync for Handler<T> {}\n\n/// The place of the handlers that stand for \"no callback\".\npub struct Handlers;\n\nimpl<T> Handler<T> {\n    pub fn leak(handler: T) -> Self {\n        Self { raw_ptr: Box::into_raw(Box::new(handler)), should_drop: true }\n    }\n\n    pub fn is_none(&self) -> bool {\n        self.raw_ptr.is_null()\n    }\n\n    pub fn as_raw(&self) -> *mut std::os::raw::c_void {\n        self.raw_ptr as *mut std::os::raw::c_void\n    }\n\n    pub fn release(&mut self) {\n        if self.should_drop && !self.raw_ptr.is_null() {\n            unsafe {\n                let _ = Box::from_raw(self.raw_ptr);\n            }\n            self.should_drop = false;\n            self.raw_ptr = std::ptr::null_mut();\n        }\n    }\n}\n\nimpl<T> std::ops::Deref for Handler<T> {\n    type Target = T;\n\n    fn deref(&self) -> &Self::Target {\n        unsafe { &*self.raw_ptr }\n    }\n}\n\nimpl<T> std::ops::DerefMut for Handler<T> {\n    fn deref_mut(&mut self) -> &mut Self::Target {\n        unsafe { &mut *self.raw_ptr }\n    }\n}\n";

/// The directives that silence the lints which foreign names set off.
pub const LINT_DIRECTIVES: &'static str = "#![allow(non_upper_case_globals)]\n#![allow(non_camel_case_types)]\n#![allow(non_snake_case)]\n#![allow(clippy::all)]\n";

/// The wrapper stands for an operation that is begun now and completed later.
pub open spec fn is_async_wrapper(w: CWrapperView) -> bool {
    starts_with(w.c_name, "aeron_async_"@)
}

/// The type that the operation of an asynchronous wrapper completes to.
pub open spec fn main_name(c_name: Seq<char>) -> Seq<char> {
    replace(replace(c_name, "_async_"@, "_"@), "_add_"@, "_"@)
}

/// The name of the function that asks whether the operation is complete.
pub open spec fn poll_name(w: CWrapperView) -> Seq<char> {
    w.without_name + "_poll"@
}

/// The function of the wrapper that begins the operation, or `-1`: the one
/// named like the wrapper's type without its `_t`.
pub open spec fn initiating_method(w: CWrapperView) -> int {
    method_index(w.methods, w.without_name)
}

/// The wrapper of the type that the operation completes to, or `-1`.
pub open spec fn main_wrapper(w: CWrapperView, wrappers: Seq<CWrapperView>) -> int {
    wrapper_index(wrappers, main_name(w.c_name))
}

/// The function of the completed type's wrapper that asks whether the
/// operation is complete, or `-1`.
pub open spec fn poll_method(w: CWrapperView, main: CWrapperView) -> int {
    method_index(main.methods, poll_name(w))
}

/// The two-phase pattern applies to the wrapper: it is asynchronous by name,
/// it has the function that begins the operation, the completed type has a
/// wrapper, and that wrapper has the function that polls.
pub open spec fn is_two_phase(w: CWrapperView, wrappers: Seq<CWrapperView>) -> bool {
    &&& is_async_wrapper(w)
    &&& 0 <= initiating_method(w) < w.methods.len()
    &&& 0 <= main_wrapper(w, wrappers) < wrappers.len()
    &&& 0 <= poll_method(w, wrappers[main_wrapper(w, wrappers)]) < wrappers[main_wrapper(
        w,
        wrappers,
    )].methods.len()
}

/// The constructor's parameters for the first `n` parameters of a function
/// of the two-phase pattern: all but the slot, each with the type that
/// stands for it in a wrapper.
pub open spec fn phase_params(args: Seq<ArgView>, wrappers: Seq<CWrapperView>, n: int) -> Seq<
    Seq<char>,
>
    decreases n,
{
    if n <= 1 {
        Seq::<Seq<char>>::empty()
    } else {
        phase_params(args, wrappers, n - 1).push(
            args[n - 1].name + ": "@ + new_return_type(args[n - 1].c_type, wrappers, false),
        )
    }
}

/// What such a function is handed for its first `n` parameters: the slot,
/// then each parameter as a foreign value.
pub open spec fn phase_calls(args: Seq<ArgView>, n: int) -> Seq<Seq<char>>
    decreases n,
{
    if n <= 0 {
        Seq::<Seq<char>>::empty()
    } else if n == 1 {
        seq!["ctx"@]
    } else {
        phase_calls(args, n - 1).push(rs_to_c(args[n - 1].c_type, args[n - 1].name))
    }
}

/// The constructor of the type `class` that runs the function `m` of the
/// two-phase pattern. Nothing is to release: the foreign library owns what
/// the function makes.
pub open spec fn phase_constructor_text(m: MethodView, wrappers: Seq<CWrapperView>) -> Seq<char> {
    "    pub fn new("@ + join(phase_params(m.arguments, wrappers, m.arguments.len() as int), ", "@)
        + ") -> Result<Self, AeronCError> {\n        let resource = ManagedCResource::new(\n            move |ctx| unsafe { "@
        + m.fn_name + "("@ + join(phase_calls(m.arguments, m.arguments.len() as int), ", "@)
        + ") },\n            None,\n            false,\n            None,\n        )?;\n        Ok(Self { inner: std::rc::Rc::new(resource) })\n    }\n"@
}

/// What the two-phase pattern adds for the wrapper: on the completed type a
/// constructor that polls, for which "not ready" is no handle; on the
/// wrapper a constructor that begins the operation, a poll that does not
/// block, and a poll that tries again until a deadline.
pub open spec fn async_text(w: CWrapperView, wrappers: Seq<CWrapperView>) -> Seq<char> {
    if is_two_phase(w, wrappers) {
        let main = wrappers[main_wrapper(w, wrappers)];
        "\nimpl "@ + main.class_name + " {\n"@ + phase_constructor_text(
            main.methods[poll_method(w, main)],
            wrappers,
        ) + "}\n\nimpl "@ + w.class_name + " {\n"@ + phase_constructor_text(
            w.methods[initiating_method(w)],
            wrappers,
        ) + "\n    pub fn poll(&self) -> Option<"@ + main.class_name + "> {\n        "@
            + main.class_name
            + "::new(self.clone()).ok()\n    }\n\n    pub fn poll_blocking(&self, timeout: std::time::Duration) -> Result<"@
            + main.class_name
            + ", AeronCError> {\n        let interval = std::time::Duration::from_millis(100);\n        let time = std::time::Instant::now();\n        loop {\n            if let Some(value) = self.poll() {\n                return Ok(value);\n            }\n            if time.elapsed() + interval > timeout {\n                return Err(AeronCError::from_code(-234324));\n            }\n            std::thread::sleep(interval);\n        }\n    }\n}\n"@
    } else {
        Seq::<char>::empty()
    }
}

/// The wrapper's type, its members, and the conversions between the wrapper
/// and the raw handle: the handle of a wrapper, a wrapper that borrows a
/// handle, and a wrapper that owns a record.
pub open spec fn body_text(
    w: CWrapperView,
    wrappers: Seq<CWrapperView>,
    handlers: Seq<HandlerView>,
    convert_errors: bool,
) -> Seq<char> {
    docs_text(w.docs, w.docs.len() as int) + "#[derive(Debug, Clone)]\npub struct "@
        + w.class_name + " {\n    inner: std::rc::Rc<ManagedCResource<"@ + w.c_name
        + ">>,\n}\n\nimpl "@ + w.class_name + " {\n"@ + constructor_block(w) + accessors_text(
        w,
        wrappers,
        convert_errors,
        w.fields.len() as int,
    ) + methods_text(w, wrappers, handlers, convert_errors, w.methods.len() as int)
        + "    pub fn get_inner(&self) -> *mut "@ + w.c_name
        + " {\n        self.inner.get()\n    }\n}\n\nimpl std::ops::Deref for "@ + w.class_name
        + " {\n    type Target = "@ + w.c_name
        + ";\n\n    fn deref(&self) -> &Self::Target {\n        unsafe { &*self.inner.get() }\n    }\n}\n\nimpl From<*mut "@
        + w.c_name + "> for "@ + w.class_name + " {\n    #[inline]\n    fn from(value: *mut "@
        + w.c_name + ") -> Self {\n        "@ + w.class_name
        + " { inner: std::rc::Rc::new(ManagedCResource::new_borrowed(value, None)) }\n    }\n}\n\nimpl From<"@
        + w.class_name + "> for *mut "@ + w.c_name + " {\n    #[inline]\n    fn from(value: "@
        + w.class_name
        + ") -> Self {\n        value.get_inner()\n    }\n}\n\nimpl From<*const "@ + w.c_name
        + "> for "@ + w.class_name + " {\n    #[inline]\n    fn from(value: *const "@ + w.c_name
        + ") -> Self {\n        "@ + w.class_name
        + " { inner: std::rc::Rc::new(ManagedCResource::new_borrowed(value, None)) }\n    }\n}\n\nimpl From<"@
        + w.c_name + "> for "@ + w.class_name + " {\n    #[inline]\n    fn from(value: "@
        + w.c_name
        + ") -> Self {\n        let resource = ManagedCResource::new(\n            move |ctx| {\n                unsafe { *ctx = Box::into_raw(Box::new(value)) };\n                0\n            },\n            None,\n            true,\n            None,\n        );\n        "@
        + w.class_name + " { inner: std::rc::Rc::new(resource.unwrap()) }\n    }\n}\n"@
}

/// The `Default` of a wrapper of plain data: the record of zero bytes.
pub open spec fn default_text(w: CWrapperView) -> Seq<char> {
    if spec_has_default_method(w) {
        "\nimpl Default for "@ + w.class_name + " {\n    fn default() -> Self {\n        "@
            + w.class_name + "::new_zeroed().unwrap()\n    }\n}\n"@
    } else {
        Seq::<char>::empty()
    }
}

/// What stands before the first wrapper of a compilation unit, where the
/// unit is to hold the runtime: the lint directives, where they are asked
/// for.
pub open spec fn lint_text(include_common_code: bool, include_clippy: bool) -> Seq<char> {
    if include_common_code && include_clippy {
        LINT_DIRECTIVES@
    } else {
        Seq::<char>::empty()
    }
}

/// The runtime, where the unit is to hold it.
pub open spec fn common_text(include_common_code: bool) -> Seq<char> {
    if include_common_code {
        COMMON_CODE@
    } else {
        Seq::<char>::empty()
    }
}

/// The source text for one wrapper. A wrapper of a type that the
/// conventions do not cover gets none.
pub open spec fn wrapper_text(
    w: CWrapperView,
    wrappers: Seq<CWrapperView>,
    include_common_code: bool,
    include_clippy: bool,
    convert_errors: bool,
    handlers: Seq<HandlerView>,
) -> Seq<char> {
    if is_denied(w.c_name, default_deny()) {
        Seq::<char>::empty()
    } else {
        lint_text(include_common_code, include_clippy) + body_text(
            w,
            wrappers,
            handlers,
            convert_errors,
        ) + async_text(w, wrappers) + default_text(w) + common_text(include_common_code)
    }
}

/// The parameters of the trampoline of a callback: those of the callback's
/// signature, all of them, in order.
pub open spec fn raw_params(args: Seq<(Seq<char>, Seq<char>)>) -> Seq<Seq<char>> {
    Seq::new(args.len(), |i: int| args[i].0 + ": "@ + args[i].1)
}

/// The parameters of the interface's operation: those of the callback's
/// signature without the context pointer, in order, each with the type that
/// stands for it in a wrapper.
pub open spec fn interface_params(
    args: Seq<(Seq<char>, Seq<char>)>,
    wrappers: Seq<CWrapperView>,
) -> Seq<Seq<char>> {
    Seq::new(
        (args.len() - 1) as nat,
        |i: int| args[i + 1].0 + ": "@ + new_return_type(args[i + 1].1, wrappers, false),
    )
}

/// What the trampoline hands on to the implementer: each parameter but the
/// context pointer, in order, as the wrapper's value.
pub open spec fn forwarded(args: Seq<(Seq<char>, Seq<char>)>) -> Seq<Seq<char>> {
    Seq::new((args.len() - 1) as nat, |i: int| c_to_rs(args[i + 1].1, args[i + 1].0, false))
}

/// The interface and the trampoline of a callback. The interface has one
/// operation, which takes what the callback takes but for the context
/// pointer. The trampoline has the callback's own signature; it takes the
/// context pointer for the implementer and calls the operation on it, and
/// does nothing where the pointer is null. A signature that is not that of
/// a callback (no context pointer first, or a parameter without a name)
/// gives no text.
pub open spec fn handler_text(h: HandlerView, wrappers: Seq<CWrapperView>) -> Seq<char> {
    if !handler_wf(h) {
        Seq::<char>::empty()
    } else {
        docs_text(h.docs, h.docs.len() as int) + "pub trait "@ + interface_name(h.c_name)
            + " {\n    fn handle(&mut self"@ + bracketed(
            ", "@,
            interface_params(h.args, wrappers),
            ""@,
        ) + ");\n}\n\n"@ + docs_text(h.docs, h.docs.len() as int) + "unsafe extern \"C\" fn "@
            + trampoline_name(h.c_name) + "<F: "@ + interface_name(h.c_name) + ">("@ + join(
            raw_params(h.args),
            ", "@,
        ) + ") {\n    if !"@ + h.args[0].0 + ".is_null() {\n        let closure: &mut F = &mut *("@
            + h.args[0].0 + " as *mut F);\n        closure.handle("@ + join(
            forwarded(h.args),
            ", "@,
        ) + ");\n    }\n}\n"@
    }
}

/// The trampoline of a callback takes every parameter of the callback's
/// signature, and the interface's operation every one but the context
/// pointer: as many, in the same order, under the same names.
pub proof fn lemma_handler_parameters(h: HandlerView, wrappers: Seq<CWrapperView>, i: int)
    requires
        0 <= i < h.args.len() - 1,
    ensures
        raw_params(h.args).len() == h.args.len(),
        interface_params(h.args, wrappers).len() == h.args.len() - 1,
        forwarded(h.args).len() == h.args.len() - 1,
        raw_params(h.args)[i + 1] == h.args[i + 1].0 + ": "@ + h.args[i + 1].1,
        interface_params(h.args, wrappers)[i] == h.args[i + 1].0 + ": "@ + new_return_type(
            h.args[i + 1].1,
            wrappers,
            false,
        ),
        forwarded(h.args)[i] == c_to_rs(h.args[i + 1].1, h.args[i + 1].0, false),
{
}

/// A field that shares its name with a method gets no accessor: the method
/// alone carries the name, and it is written where none of its parameters is
/// a pointer to a pointer.
pub proof fn lemma_method_shadows_field(w: CWrapperView, field: int, method: int)
    requires
        0 <= field < w.fields.len(),
        0 <= method < w.methods.len(),
        w.methods[method].struct_method_name == w.fields[field].0,
    ensures
        !is_accessor(w, field),
        is_method(w, method) <==> !has_double_pointer(w.methods[method].arguments),
{
    let names = crate::model::member_names(w.methods);
    lemma_key_index(names, w.fields[field].0);
    assert(names[method] == w.fields[field].0);
}

/// No text is written for a wrapper of a denied type, whatever its fields
/// and methods are.
pub proof fn lemma_denied_wrapper_gives_no_text(
    w: CWrapperView,
    wrappers: Seq<CWrapperView>,
    include_common_code: bool,
    include_clippy: bool,
    convert_errors: bool,
    handlers: Seq<HandlerView>,
)
    requires
        is_denied(w.c_name, default_deny()),
    ensures
        wrapper_text(w, wrappers, include_common_code, include_clippy, convert_errors, handlers)
            == Seq::<char>::empty(),
{
}

fn phase_constructor(m: &Method, wrappers: &Vec<CWrapper>) -> (r: String)
    ensures
        r@ == phase_constructor_text(m@, wrappers_view(wrappers@)),
{
    let ghost ws = wrappers_view(wrappers@);
    let ghost args = m@.arguments;
    let mut params: Vec<String> = Vec::new();
    let mut calls: Vec<String> = Vec::new();
    assert(strings_view(params@) =~= Seq::<Seq<char>>::empty());
    assert(strings_view(calls@) =~= Seq::<Seq<char>>::empty());
    let mut j: usize = 0;
    while j < m.arguments.len()
        invariant
            j <= m.arguments.len(),
            args == m@.arguments,
            args.len() == m.arguments.len(),
            ws == wrappers_view(wrappers@),
            strings_view(params@) == phase_params(args, ws, j as int),
            strings_view(calls@) == phase_calls(args, j as int),
        decreases m.arguments.len() - j,
    {
        let a = &m.arguments[j];
        assert(args[j as int] == a@);
        if j == 0 {
            push_text(&mut calls, String::from_str("ctx"));
            assert(strings_view(calls@) =~= seq!["ctx"@]);
        } else {
            let conversion = ReturnType::new(a.c_type.clone(), wrappers);
            let shown = conversion.get_new_return_type(false);
            push_text(&mut params, typed(a.name.as_str(), shown.as_str()));
            push_text(&mut calls, conversion.handle_rs_to_c_return(a.name.as_str()));
        }
        j += 1;
    }
    let param_list = joined(&params);
    let call_list = joined(&calls);
    let mut out = String::from_str("    pub fn new(");
    out.append(param_list.as_str());
    out.append(
        ") -> Result<Self, AeronCError> {\n        let resource = ManagedCResource::new(\n            move |ctx| unsafe { ",
    );
    out.append(m.fn_name.as_str());
    out.append("(");
    out.append(call_list.as_str());
    out.append(
        ") },\n            None,\n            false,\n            None,\n        )?;\n        Ok(Self { inner: std::rc::Rc::new(resource) })\n    }\n",
    );
    out
}

/// What the two-phase pattern adds for the wrapper; nothing where it does
/// not apply.
pub fn generate_async(wrapper: &CWrapper, wrappers: &Vec<CWrapper>) -> (r: String)
    ensures
        r@ == async_text(wrapper@, wrappers_view(wrappers@)),
{
    let ghost ws = wrappers_view(wrappers@);
    if !str_starts_with(wrapper.c_name.as_str(), "aeron_async_") {
        return String::new();
    }
    let initiating = match find_method(&wrapper.methods, wrapper.without_name.as_str()) {
        Some(i) => i,
        None => {
            return String::new();
        },
    };
    let a = str_replace(wrapper.c_name.as_str(), "_async_", "_");
    let main_c_name = str_replace(a.as_str(), "_add_", "_");
    let main_index = match find_wrapper(wrappers, main_c_name.as_str()) {
        Some(i) => i,
        None => {
            return String::new();
        },
    };
    let main = &wrappers[main_index];
    assert(ws[main_index as int] == main@);
    let mut poll_fn = wrapper.without_name.clone();
    poll_fn.append("_poll");
    let poll = match find_method(&main.methods, poll_fn.as_str()) {
        Some(i) => i,
        None => {
            return String::new();
        },
    };
    assert(main@.methods[poll as int] == main.methods@[poll as int]@);
    assert(wrapper@.methods[initiating as int] == wrapper.methods@[initiating as int]@);
    let polling = phase_constructor(&main.methods[poll], wrappers);
    let beginning = phase_constructor(&wrapper.methods[initiating], wrappers);
    let mut out = String::from_str("\nimpl ");
    out.append(main.class_name.as_str());
    out.append(" {\n");
    out.append(polling.as_str());
    out.append("}\n\nimpl ");
    out.append(wrapper.class_name.as_str());
    out.append(" {\n");
    out.append(beginning.as_str());
    out.append("\n    pub fn poll(&self) -> Option<");
    out.append(main.class_name.as_str());
    out.append("> {\n        ");
    out.append(main.class_name.as_str());
    out.append(
        "::new(self.clone()).ok()\n    }\n\n    pub fn poll_blocking(&self, timeout: std::time::Duration) -> Result<",
    );
    out.append(main.class_name.as_str());
    out.append(
        ", AeronCError> {\n        let interval = std::time::Duration::from_millis(100);\n        let time = std::time::Instant::now();\n        loop {\n            if let Some(value) = self.poll() {\n                return Ok(value);\n            }\n            if time.elapsed() + interval > timeout {\n                return Err(AeronCError::from_code(-234324));\n            }\n            std::thread::sleep(interval);\n        }\n    }\n}\n",
    );
    out
}

fn generate_body(
    wrapper: &CWrapper,
    wrappers: &Vec<CWrapper>,
    handlers: &Vec<Handler>,
    convert_errors: bool,
) -> (r: String)
    ensures
        r@ == body_text(
            wrapper@,
            wrappers_view(wrappers@),
            handlers_view(handlers@),
            convert_errors,
        ),
{
    let class = wrapper.class_name.as_str();
    let c_name = wrapper.c_name.as_str();
    let constructors = wrapper.generate_constructor();
    let accessors = wrapper.generate_fields(wrappers, convert_errors);
    let methods = wrapper.generate_methods(wrappers, handlers, convert_errors);
    let mut out = get_docs(&wrapper.docs);
    out.append("#[derive(Debug, Clone)]\npub struct ");
    out.append(class);
    out.append(" {\n    inner: std::rc::Rc<ManagedCResource<");
    out.append(c_name);
    out.append(">>,\n}\n\nimpl ");
    out.append(class);
    out.append(" {\n");
    out.append(constructors.as_str());
    out.append(accessors.as_str());
    out.append(methods.as_str());
    out.append("    pub fn get_inner(&self) -> *mut ");
    out.append(c_name);
    out.append(" {\n        self.inner.get()\n    }\n}\n\nimpl std::ops::Deref for ");
    out.append(class);
    out.append(" {\n    type Target = ");
    out.append(c_name);
    out.append(
        ";\n\n    fn deref(&self) -> &Self::Target {\n        unsafe { &*self.inner.get() }\n    }\n}\n\nimpl From<*mut ",
    );
    out.append(c_name);
    out.append("> for ");
    out.append(class);
    out.append(" {\n    #[inline]\n    fn from(value: *mut ");
    out.append(c_name);
    out.append(") -> Self {\n        ");
    out.append(class);
    out.append(
        " { inner: std::rc::Rc::new(ManagedCResource::new_borrowed(value, None)) }\n    }\n}\n\nimpl From<",
    );
    out.append(class);
    out.append("> for *mut ");
    out.append(c_name);
    out.append(" {\n    #[inline]\n    fn from(value: ");
    out.append(class);
    out.append(") -> Self {\n        value.get_inner()\n    }\n}\n\nimpl From<*const ");
    out.append(c_name);
    out.append("> for ");
    out.append(class);
    out.append(" {\n    #[inline]\n    fn from(value: *const ");
    out.append(c_name);
    out.append(") -> Self {\n        ");
    out.append(class);
    out.append(
        " { inner: std::rc::Rc::new(ManagedCResource::new_borrowed(value, None)) }\n    }\n}\n\nimpl From<",
    );
    out.append(c_name);
    out.append("> for ");
    out.append(class);
    out.append(" {\n    #[inline]\n    fn from(value: ");
    out.append(c_name);
    out.append(
        ") -> Self {\n        let resource = ManagedCResource::new(\n            move |ctx| {\n                unsafe { *ctx = Box::into_raw(Box::new(value)) };\n                0\n            },\n            None,\n            true,\n            None,\n        );\n        ",
    );
    out.append(class);
    out.append(" { inner: std::rc::Rc::new(resource.unwrap()) }\n    }\n}\n");
    out
}

/// The interface and the trampoline of a callback.
pub fn generate_handlers(handler: &Handler, bindings: &Bindings) -> (r: String)
    ensures
        r@ == handler_text(handler@, bindings@.wrappers),
{
    let ghost ws = bindings@.wrappers;
    let ghost args = handler@.args;
    if !is_callback_params(&handler.args) {
        return String::new();
    }
    let mut raw: Vec<String> = Vec::new();
    let mut shown: Vec<String> = Vec::new();
    let mut passed: Vec<String> = Vec::new();
    let mut i: usize = 0;
    while i < handler.args.len()
        invariant
            i <= handler.args.len(),
            handler.args.len() > 0,
            args == handler@.args,
            args.len() == handler.args.len(),
            ws == wrappers_view(bindings.wrappers@),
            strings_view(raw@).len() == i,
            forall|j: int| 0 <= j < i ==> #[trigger] strings_view(raw@)[j] == raw_params(args)[j],
            strings_view(shown@).len() == (if i == 0 {
                0
            } else {
                i - 1
            }),
            forall|j: int|
                0 <= j < i - 1 ==> #[trigger] strings_view(shown@)[j] == interface_params(
                    args,
                    ws,
                )[j],
            strings_view(passed@).len() == strings_view(shown@).len(),
            forall|j: int| 0 <= j < i - 1 ==> #[trigger] strings_view(passed@)[j] == forwarded(
                args,
            )[j],
        decreases handler.args.len() - i,
    {
        let name = handler.args[i].0.as_str();
        let c_type = handler.args[i].1.as_str();
        assert(args[i as int] == (name@, c_type@));
        push_text(&mut raw, typed(name, c_type));
        if i > 0 {
            let conversion = ReturnType::new(handler.args[i].1.clone(), &bindings.wrappers);
            let t = conversion.get_new_return_type(false);
            push_text(&mut shown, typed(name, t.as_str()));
            push_text(&mut passed, conversion.handle_c_to_rs_return(name, false));
        }
        i += 1;
    }
    assert(strings_view(raw@) =~= raw_params(args));
    assert(strings_view(shown@) =~= interface_params(args, ws));
    assert(strings_view(passed@) =~= forwarded(args));
    let context = handler.args[0].0.as_str();
    assert(args[0].0 == context@);
    let mut interface = snake_to_pascal_case(handler.c_name.as_str());
    interface.append("Handler");
    let docs = get_docs(&handler.docs);
    let shown_list = bracket(", ", &shown, "");
    let raw_list = joined(&raw);
    let passed_list = joined(&passed);
    let mut out = get_docs(&handler.docs);
    out.append("pub trait ");
    out.append(interface.as_str());
    out.append(" {\n    fn handle(&mut self");
    out.append(shown_list.as_str());
    out.append(");\n}\n\n");
    out.append(docs.as_str());
    out.append("unsafe extern \"C\" fn ");
    out.append(handler.c_name.as_str());
    out.append("_callback");
    out.append("<F: ");
    out.append(interface.as_str());
    out.append(">(");
    out.append(raw_list.as_str());
    out.append(") {\n    if !");
    out.append(context);
    out.append(".is_null() {\n        let closure: &mut F = &mut *(");
    out.append(context);
    out.append(" as *mut F);\n        closure.handle(");
    out.append(passed_list.as_str());
    out.append(");\n    }\n}\n");
    proof {
        let name = handler@.c_name;
        assert(out@ =~= handler_text(handler@, ws));
    }
    out
}

fn generate_lint(include_common_code: bool, include_clippy: bool) -> (r: String)
    ensures
        r@ == lint_text(include_common_code, include_clippy),
{
    if include_common_code && include_clippy {
        String::from_str(LINT_DIRECTIVES)
    } else {
        String::new()
    }
}

fn generate_default(wrapper: &CWrapper) -> (r: String)
    ensures
        r@ == default_text(wrapper@),
{
    if wrapper.has_default_method() {
        let mut out = String::from_str("\nimpl Default for ");
        out.append(wrapper.class_name.as_str());
        out.append(" {\n    fn default() -> Self {\n        ");
        out.append(wrapper.class_name.as_str());
        out.append("::new_zeroed().unwrap()\n    }\n}\n");
        out
    } else {
        String::new()
    }
}

fn generate_common(include_common_code: bool) -> (r: String)
    ensures
        r@ == common_text(include_common_code),
{
    if include_common_code {
        String::from_str(COMMON_CODE)
    } else {
        String::new()
    }
}

/// The source text for one wrapper: its type with constructors, accessors
/// and methods, the conversions between the wrapper and its raw handle, and
/// what the two-phase pattern adds. With `include_common_code` the text
/// holds the runtime too, and before everything the lint directives where
/// `include_clippy` asks for them. With `convert_errors` a status code comes
/// back as a result. Nothing is read or written but the arguments and the
/// text.
pub fn generate_rust_code(
    wrapper: &CWrapper,
    wrappers: &Vec<CWrapper>,
    include_common_code: bool,
    include_clippy: bool,
    convert_errors: bool,
    handlers: &Vec<Handler>,
) -> (r: String)
    ensures
        r@ == wrapper_text(
            wrapper@,
            wrappers_view(wrappers@),
            include_common_code,
            include_clippy,
            convert_errors,
            handlers_view(handlers@),
        ),
        is_denied(wrapper@.c_name, default_deny()) ==> r@ == Seq::<char>::empty(),
{
    let deny = default_deny_list();
    if is_denied_name(wrapper.c_name.as_str(), &deny) {
        return String::new();
    }
    let mut out = generate_lint(include_common_code, include_clippy);
    let body = generate_body(wrapper, wrappers, handlers, convert_errors);
    out.append(body.as_str());
    let extra = generate_async(wrapper, wrappers);
    out.append(extra.as_str());
    let default = generate_default(wrapper);
    out.append(default.as_str());
    let common = generate_common(include_common_code);
    out.append(common.as_str());
    out
}

} // verus!
