//! The declaration model: what a declaration dump says, and the wrappers,
//! methods and callbacks that are recovered from it.

use crate::text::{str_eq, strings_view};
use vstd::prelude::*;

verus! {

/// A list of name and type pairs, as sequences of characters.
pub open spec fn pairs_view(v: Seq<(String, String)>) -> Seq<(Seq<char>, Seq<char>)> {
    v.map_values(|p: (String, String)| (p.0@, p.1@))
}

/// The position of the first occurrence of `key` in `keys`, or `-1`.
pub open spec fn key_index(keys: Seq<Seq<char>>, key: Seq<char>) -> int
    decreases keys.len(),
{
    if keys.len() == 0 {
        -1
    } else if keys[0] == key {
        0
    } else {
        let r = key_index(keys.skip(1), key);
        if r < 0 {
            -1
        } else {
            r + 1
        }
    }
}

/// `key_index` points at an occurrence of `key`, and none stands before it.
pub proof fn lemma_key_index(keys: Seq<Seq<char>>, key: Seq<char>)
    ensures
        -1 <= key_index(keys, key) < keys.len(),
        key_index(keys, key) >= 0 ==> keys[key_index(keys, key)] == key,
        forall|j: int|
            0 <= j < keys.len() && (j < key_index(keys, key) || key_index(keys, key) < 0)
                ==> #[trigger] keys[j] != key,
    decreases keys.len(),
{
    if keys.len() > 0 && keys[0] != key {
        let t = keys.skip(1);
        lemma_key_index(t, key);
        assert forall|j: int|
            0 <= j < keys.len() && (j < key_index(keys, key) || key_index(keys, key)
                < 0) implies #[trigger] keys[j] != key by {
            if j > 0 {
                assert(t[j - 1] == keys[j]);
            }
        }
    }
}

/// The first occurrence of `key` is where `key_index` points.
pub proof fn lemma_key_index_is(keys: Seq<Seq<char>>, key: Seq<char>, i: int)
    requires
        0 <= i < keys.len(),
        keys[i] == key,
        forall|j: int| 0 <= j < i ==> #[trigger] keys[j] != key,
    ensures
        key_index(keys, key) == i,
{
    lemma_key_index(keys, key);
}

/// Where `key` does not occur, `key_index` is `-1`.
pub proof fn lemma_key_index_none(keys: Seq<Seq<char>>, key: Seq<char>)
    requires
        forall|j: int| 0 <= j < keys.len() ==> #[trigger] keys[j] != key,
    ensures
        key_index(keys, key) == -1,
{
    lemma_key_index(keys, key);
}

/// How an argument is handed on: as it is, or as one half of a callback and
/// the context pointer that goes with it.
#[derive(Debug, Clone, PartialEq, Eq)]
pub enum ArgProcessing {
    Default,
    Handler { handler_name: String, handler_type: String, clientd_name: String, clientd_type: String },
}

pub enum ArgProcessingView {
    Default,
    Handler {
        handler_name: Seq<char>,
        handler_type: Seq<char>,
        clientd_name: Seq<char>,
        clientd_type: Seq<char>,
    },
}

impl View for ArgProcessing {
    type V = ArgProcessingView;

    open spec fn view(&self) -> ArgProcessingView {
        match self {
            ArgProcessing::Default => ArgProcessingView::Default,
            ArgProcessing::Handler { handler_name, handler_type, clientd_name, clientd_type } => {
                ArgProcessingView::Handler {
                    handler_name: handler_name@,
                    handler_type: handler_type@,
                    clientd_name: clientd_name@,
                    clientd_type: clientd_type@,
                }
            },
        }
    }
}

/// One parameter of a function.
#[derive(Debug, Clone, PartialEq, Eq)]
pub struct Arg {
    pub name: String,
    pub c_type: String,
    pub processing: ArgProcessing,
}

pub struct ArgView {
    pub name: Seq<char>,
    pub c_type: Seq<char>,
    pub processing: ArgProcessingView,
}

impl View for Arg {
    type V = ArgView;

    open spec fn view(&self) -> ArgView {
        ArgView { name: self.name@, c_type: self.c_type@, processing: self.processing@ }
    }
}

/// A list of parameters, as the contracts see it.
pub open spec fn args_view(v: Seq<Arg>) -> Seq<ArgView> {
    v.map_values(|a: Arg| a@)
}

/// One function of the foreign library.
#[derive(Debug, Clone, PartialEq, Eq)]
pub struct Method {
    /// The function's name in the foreign library.
    pub fn_name: String,
    /// The name without the prefix of the wrapper that owns it; empty where
    /// no wrapper does.
    pub struct_method_name: String,
    pub return_type: String,
    pub arguments: Vec<Arg>,
    /// The documentation, each text once, in the order in which it came.
    pub docs: Vec<String>,
}

pub struct MethodView {
    pub fn_name: Seq<char>,
    pub struct_method_name: Seq<char>,
    pub return_type: Seq<char>,
    pub arguments: Seq<ArgView>,
    pub docs: Seq<Seq<char>>,
}

impl View for Method {
    type V = MethodView;

    open spec fn view(&self) -> MethodView {
        MethodView {
            fn_name: self.fn_name@,
            struct_method_name: self.struct_method_name@,
            return_type: self.return_type@,
            arguments: args_view(self.arguments@),
            docs: strings_view(self.docs@),
        }
    }
}

/// A list of methods, as the contracts see it.
pub open spec fn methods_view(v: Seq<Method>) -> Seq<MethodView> {
    v.map_values(|m: Method| m@)
}

/// One callback signature: a function-pointer type whose first parameter is
/// the context pointer.
#[derive(Debug, Clone, PartialEq, Eq)]
pub struct Handler {
    pub c_name: String,
    /// The parameters, name and type, the context pointer first.
    pub args: Vec<(String, String)>,
    pub return_type: String,
    pub docs: Vec<String>,
}

pub struct HandlerView {
    pub c_name: Seq<char>,
    pub args: Seq<(Seq<char>, Seq<char>)>,
    pub return_type: Seq<char>,
    pub docs: Seq<Seq<char>>,
}

impl View for Handler {
    type V = HandlerView;

    open spec fn view(&self) -> HandlerView {
        HandlerView {
            c_name: self.c_name@,
            args: pairs_view(self.args@),
            return_type: self.return_type@,
            docs: strings_view(self.docs@),
        }
    }
}

/// A list of callback signatures, as the contracts see it.
pub open spec fn handlers_view(v: Seq<Handler>) -> Seq<HandlerView> {
    v.map_values(|h: Handler| h@)
}

/// One record type of the foreign library that becomes a wrapper.
#[derive(Debug, Clone, Default, PartialEq, Eq)]
pub struct CWrapper {
    /// The wrapper's public name.
    pub class_name: String,
    /// The record's type name, which ends in `_t`.
    pub c_name: String,
    /// The type name without its `_t`.
    pub without_name: String,
    /// Every field of the record, name and type, in the record's order.
    pub fields: Vec<(String, String)>,
    pub methods: Vec<Method>,
    pub docs: Vec<String>,
}

pub struct CWrapperView {
    pub class_name: Seq<char>,
    pub c_name: Seq<char>,
    pub without_name: Seq<char>,
    pub fields: Seq<(Seq<char>, Seq<char>)>,
    pub methods: Seq<MethodView>,
    pub docs: Seq<Seq<char>>,
}

impl View for CWrapper {
    type V = CWrapperView;

    open spec fn view(&self) -> CWrapperView {
        CWrapperView {
            class_name: self.class_name@,
            c_name: self.c_name@,
            without_name: self.without_name@,
            fields: pairs_view(self.fields@),
            methods: methods_view(self.methods@),
            docs: strings_view(self.docs@),
        }
    }
}

/// A list of wrappers, as the contracts see it.
pub open spec fn wrappers_view(v: Seq<CWrapper>) -> Seq<CWrapperView> {
    v.map_values(|w: CWrapper| w@)
}

/// The type names of the wrappers, in order.
pub open spec fn wrapper_names(wrappers: Seq<CWrapperView>) -> Seq<Seq<char>> {
    wrappers.map_values(|w: CWrapperView| w.c_name)
}

/// The names of the callback signatures, in order.
pub open spec fn handler_names(handlers: Seq<HandlerView>) -> Seq<Seq<char>> {
    handlers.map_values(|h: HandlerView| h.c_name)
}

/// The names of the functions, in order.
pub open spec fn method_names(methods: Seq<MethodView>) -> Seq<Seq<char>> {
    methods.map_values(|m: MethodView| m.fn_name)
}

/// The names that the functions have as methods, in order.
pub open spec fn member_names(methods: Seq<MethodView>) -> Seq<Seq<char>> {
    methods.map_values(|m: MethodView| m.struct_method_name)
}

/// Where the method called `name` stands in `methods`, or `-1`.
pub open spec fn member_index(methods: Seq<MethodView>, name: Seq<char>) -> int {
    key_index(member_names(methods), name)
}

/// Where the wrapper of the type `c_name` stands in `wrappers`, or `-1`.
pub open spec fn wrapper_index(wrappers: Seq<CWrapperView>, c_name: Seq<char>) -> int {
    key_index(wrapper_names(wrappers), c_name)
}

/// Where the callback signature `c_name` stands in `handlers`, or `-1`.
pub open spec fn handler_index(handlers: Seq<HandlerView>, c_name: Seq<char>) -> int {
    key_index(handler_names(handlers), c_name)
}

/// Where the function `fn_name` stands in `methods`, or `-1`.
pub open spec fn method_index(methods: Seq<MethodView>, fn_name: Seq<char>) -> int {
    key_index(method_names(methods), fn_name)
}

/// No two wrappers stand for the same type.
pub open spec fn distinct_names(wrappers: Seq<CWrapperView>) -> bool {
    forall|i: int, j: int|
        0 <= i < j < wrappers.len() ==> (#[trigger] wrappers[i]).c_name != (
        #[trigger] wrappers[j]).c_name
}

/// The declaration model: the wrappers, each type once; the functions that
/// no wrapper owns; and the callback signatures.
#[derive(Debug, Clone, Default, PartialEq, Eq)]
pub struct Bindings {
    pub wrappers: Vec<CWrapper>,
    pub methods: Vec<Method>,
    pub handlers: Vec<Handler>,
}

pub struct BindingsView {
    pub wrappers: Seq<CWrapperView>,
    pub methods: Seq<MethodView>,
    pub handlers: Seq<HandlerView>,
}

impl View for Bindings {
    type V = BindingsView;

    open spec fn view(&self) -> BindingsView {
        BindingsView {
            wrappers: wrappers_view(self.wrappers@),
            methods: methods_view(self.methods@),
            handlers: handlers_view(self.handlers@),
        }
    }
}

/// The signature of a function-pointer type.
#[derive(Debug, Clone, PartialEq, Eq)]
pub struct Callback {
    /// The parameters, name and type; the name is empty where none is given.
    pub params: Vec<(String, String)>,
    pub return_type: String,
}

pub struct CallbackView {
    pub params: Seq<(Seq<char>, Seq<char>)>,
    pub return_type: Seq<char>,
}

impl View for Callback {
    type V = CallbackView;

    open spec fn view(&self) -> CallbackView {
        CallbackView { params: pairs_view(self.params@), return_type: self.return_type@ }
    }
}

/// One declaration of a dump.
#[derive(Debug, Clone, PartialEq, Eq)]
pub enum Declaration {
    /// A record with its fields, name and type.
    Record { name: String, fields: Vec<(String, String)>, docs: Vec<String> },
    /// A type alias: its name, its whole text, and the signature where the
    /// alias stands for an optional function pointer.
    Alias { name: String, text: String, callback: Option<Callback>, docs: Vec<String> },
    /// A function of the foreign library.
    Function {
        name: String,
        arguments: Vec<(String, String)>,
        return_type: String,
        docs: Vec<String>,
    },
}

pub enum DeclarationView {
    Record { name: Seq<char>, fields: Seq<(Seq<char>, Seq<char>)>, docs: Seq<Seq<char>> },
    Alias { name: Seq<char>, text: Seq<char>, callback: Option<CallbackView>, docs: Seq<Seq<char>> },
    Function {
        name: Seq<char>,
        arguments: Seq<(Seq<char>, Seq<char>)>,
        return_type: Seq<char>,
        docs: Seq<Seq<char>>,
    },
}

impl View for Declaration {
    type V = DeclarationView;

    open spec fn view(&self) -> DeclarationView {
        match self {
            Declaration::Record { name, fields, docs } => DeclarationView::Record {
                name: name@,
                fields: pairs_view(fields@),
                docs: strings_view(docs@),
            },
            Declaration::Alias { name, text, callback, docs } => DeclarationView::Alias {
                name: name@,
                text: text@,
                callback: match callback {
                    Some(c) => Some(c@),
                    None => None,
                },
                docs: strings_view(docs@),
            },
            Declaration::Function { name, arguments, return_type, docs } => {
                DeclarationView::Function {
                    name: name@,
                    arguments: pairs_view(arguments@),
                    return_type: return_type@,
                    docs: strings_view(docs@),
                }
            },
        }
    }
}

/// A dump, as the contracts see it.
pub open spec fn declarations_view(v: Seq<Declaration>) -> Seq<DeclarationView> {
    v.map_values(|d: Declaration| d@)
}

/// The view of a list with one string more.
pub proof fn lemma_strings_push(v: Seq<String>, s: String)
    ensures
        strings_view(v.push(s)) == strings_view(v).push(s@),
{
    assert(strings_view(v.push(s)) =~= strings_view(v).push(s@));
}

/// The view of a list with one pair more.
pub proof fn lemma_pairs_push(v: Seq<(String, String)>, p: (String, String))
    ensures
        pairs_view(v.push(p)) == pairs_view(v).push((p.0@, p.1@)),
{
    assert(pairs_view(v.push(p)) =~= pairs_view(v).push((p.0@, p.1@)));
}

/// The view of a list with one parameter more.
pub proof fn lemma_args_push(v: Seq<Arg>, a: Arg)
    ensures
        args_view(v.push(a)) == args_view(v).push(a@),
{
    assert(args_view(v.push(a)) =~= args_view(v).push(a@));
}

/// The view of a list with one method more.
pub proof fn lemma_methods_push(v: Seq<Method>, m: Method)
    ensures
        methods_view(v.push(m)) == methods_view(v).push(m@),
{
    assert(methods_view(v.push(m)) =~= methods_view(v).push(m@));
}

/// The view of a list with one callback signature more.
pub proof fn lemma_handlers_push(v: Seq<Handler>, h: Handler)
    ensures
        handlers_view(v.push(h)) == handlers_view(v).push(h@),
{
    assert(handlers_view(v.push(h)) =~= handlers_view(v).push(h@));
}

/// The view of a list with one wrapper more.
pub proof fn lemma_wrappers_push(v: Seq<CWrapper>, w: CWrapper)
    ensures
        wrappers_view(v.push(w)) == wrappers_view(v).push(w@),
{
    assert(wrappers_view(v.push(w)) =~= wrappers_view(v).push(w@));
}

/// A copy of `s`.
pub fn copy_string(s: &String) -> (r: String)
    ensures
        r@ == s@,
{
    s.clone()
}

/// A copy of a list of name and type pairs.
pub fn copy_pairs(v: &Vec<(String, String)>) -> (r: Vec<(String, String)>)
    ensures
        pairs_view(r@) == pairs_view(v@),
{
    let mut r: Vec<(String, String)> = Vec::new();
    let mut i: usize = 0;
    assert(pairs_view(r@) =~= pairs_view(v@).take(0));
    while i < v.len()
        invariant
            i <= v.len(),
            pairs_view(r@) == pairs_view(v@).take(i as int),
        decreases v.len() - i,
    {
        let c = (v[i].0.clone(), v[i].1.clone());
        proof {
            lemma_pairs_push(r@, c);
            assert(pairs_view(v@).take(i as int).push((c.0@, c.1@)) =~= pairs_view(v@).take(
                i + 1,
            ));
        }
        r.push(c);
        i += 1;
    }
    assert(pairs_view(v@).take(v.len() as int) =~= pairs_view(v@));
    r
}

/// Where `key` first stands in `keys`.
pub fn find_key(keys: &Vec<String>, key: &str) -> (r: Option<usize>)
    ensures
        match r {
            Some(i) => i < keys.len() && i == key_index(strings_view(keys@), key@),
            None => key_index(strings_view(keys@), key@) == -1,
        },
{
    let ghost names = strings_view(keys@);
    let mut i: usize = 0;
    while i < keys.len()
        invariant
            i <= keys.len(),
            names == strings_view(keys@),
            forall|j: int| 0 <= j < i ==> #[trigger] names[j] != key@,
        decreases keys.len() - i,
    {
        if str_eq(keys[i].as_str(), key) {
            proof {
                lemma_key_index_is(names, key@, i as int);
            }
            return Some(i);
        }
        i += 1;
    }
    proof {
        lemma_key_index_none(names, key@);
    }
    None
}

/// Where the wrapper of the type `c_name` stands in `wrappers`.
pub fn find_wrapper(wrappers: &Vec<CWrapper>, c_name: &str) -> (r: Option<usize>)
    ensures
        match r {
            Some(i) => i < wrappers.len() && i == wrapper_index(wrappers_view(wrappers@), c_name@),
            None => wrapper_index(wrappers_view(wrappers@), c_name@) == -1,
        },
{
    let ghost names = wrapper_names(wrappers_view(wrappers@));
    let mut i: usize = 0;
    while i < wrappers.len()
        invariant
            i <= wrappers.len(),
            names == wrapper_names(wrappers_view(wrappers@)),
            forall|j: int| 0 <= j < i ==> #[trigger] names[j] != c_name@,
        decreases wrappers.len() - i,
    {
        if str_eq(wrappers[i].c_name.as_str(), c_name) {
            proof {
                lemma_key_index_is(names, c_name@, i as int);
            }
            return Some(i);
        }
        i += 1;
    }
    proof {
        lemma_key_index_none(names, c_name@);
    }
    None
}

/// Where the callback signature `c_name` stands in `handlers`.
pub fn find_handler(handlers: &Vec<Handler>, c_name: &str) -> (r: Option<usize>)
    ensures
        match r {
            Some(i) => i < handlers.len() && i == handler_index(handlers_view(handlers@), c_name@),
            None => handler_index(handlers_view(handlers@), c_name@) == -1,
        },
{
    let ghost names = handler_names(handlers_view(handlers@));
    let mut i: usize = 0;
    while i < handlers.len()
        invariant
            i <= handlers.len(),
            names == handler_names(handlers_view(handlers@)),
            forall|j: int| 0 <= j < i ==> #[trigger] names[j] != c_name@,
        decreases handlers.len() - i,
    {
        if str_eq(handlers[i].c_name.as_str(), c_name) {
            proof {
                lemma_key_index_is(names, c_name@, i as int);
            }
            return Some(i);
        }
        i += 1;
    }
    proof {
        lemma_key_index_none(names, c_name@);
    }
    None
}

/// Where the function `fn_name` stands in `methods`.
pub fn find_method(methods: &Vec<Method>, fn_name: &str) -> (r: Option<usize>)
    ensures
        match r {
            Some(i) => i < methods.len() && i == method_index(methods_view(methods@), fn_name@),
            None => method_index(methods_view(methods@), fn_name@) == -1,
        },
{
    let ghost names = method_names(methods_view(methods@));
    let mut i: usize = 0;
    while i < methods.len()
        invariant
            i <= methods.len(),
            names == method_names(methods_view(methods@)),
            forall|j: int| 0 <= j < i ==> #[trigger] names[j] != fn_name@,
        decreases methods.len() - i,
    {
        if str_eq(methods[i].fn_name.as_str(), fn_name) {
            proof {
                lemma_key_index_is(names, fn_name@, i as int);
            }
            return Some(i);
        }
        i += 1;
    }
    proof {
        lemma_key_index_none(names, fn_name@);
    }
    None
}

/// Where the method called `name` stands in `methods`.
pub fn find_member(methods: &Vec<Method>, name: &str) -> (r: Option<usize>)
    ensures
        match r {
            Some(i) => i < methods.len() && i == member_index(methods_view(methods@), name@),
            None => member_index(methods_view(methods@), name@) == -1,
        },
{
    let ghost names = member_names(methods_view(methods@));
    let mut i: usize = 0;
    while i < methods.len()
        invariant
            i <= methods.len(),
            names == member_names(methods_view(methods@)),
            forall|j: int| 0 <= j < i ==> #[trigger] names[j] != name@,
        decreases methods.len() - i,
    {
        if str_eq(methods[i].struct_method_name.as_str(), name) {
            proof {
                lemma_key_index_is(names, name@, i as int);
            }
            return Some(i);
        }
        i += 1;
    }
    proof {
        lemma_key_index_none(names, name@);
    }
    None
}

impl Bindings {
    /// Whether the model is consistent: no type has two wrappers.
    pub fn is_consistent(&self) -> (r: bool)
        ensures
            r == distinct_names(self@.wrappers),
    {
        let ghost ws = self@.wrappers;
        let mut j: usize = 0;
        while j < self.wrappers.len()
            invariant
                j <= self.wrappers.len(),
                ws == wrappers_view(self.wrappers@),
                forall|a: int, b: int|
                    0 <= a < b < j ==> (#[trigger] ws[a]).c_name != (#[trigger] ws[b]).c_name,
            decreases self.wrappers.len() - j,
        {
            let mut i: usize = 0;
            while i < j
                invariant
                    i <= j < self.wrappers.len(),
                    ws == wrappers_view(self.wrappers@),
                    forall|a: int| 0 <= a < i ==> (#[trigger] ws[a]).c_name != ws[j as int].c_name,
                decreases j - i,
            {
                if str_eq(self.wrappers[i].c_name.as_str(), self.wrappers[j].c_name.as_str()) {
                    assert(ws[i as int].c_name == ws[j as int].c_name);
                    return false;
                }
                i += 1;
            }
            j += 1;
        }
        true
    }
}

} // verus!
