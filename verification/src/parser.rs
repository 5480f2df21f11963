//! The extractor: from the declarations of a dump to the declaration model.
//! A dump names no owner for a function and marks no callback; both are
//! recovered from the naming conventions alone.

use crate::model::{
    args_view, copy_pairs, copy_string, declarations_view, distinct_names, find_handler, find_key,
    find_wrapper, handler_index, handlers_view, key_index, lemma_args_push, lemma_handlers_push,
    lemma_key_index, lemma_methods_push, lemma_strings_push, lemma_wrappers_push, methods_view,
    pairs_view, wrapper_index, wrapper_names, wrappers_view, Arg, ArgProcessing, ArgProcessingView,
    ArgView, Bindings, BindingsView, CWrapper, CWrapperView, CallbackView, Declaration,
    DeclarationView, Handler, HandlerView, Method, MethodView,
};
use crate::syntax::{declarations_of, dump_items, dump_parses, read_dump, ExtractionError};
use crate::text::{
    after_last, chars_of, contains, ends_with, last_index_of, replace, split, starts_with,
    str_after_last, str_contains, str_ends_with, str_eq, str_replace, str_split, str_starts_with,
    strings_view, text_between, text_of, unicode_uppercase, uppercase_of, vec_last_index_of,
};
use vstd::prelude::*;
use vstd::string::StringExecFns;

verus! {

/// The type is written as a pointer.
pub open spec fn is_pointer(c_type: Seq<char>) -> bool {
    starts_with(c_type, "*"@)
}

/// The text of the type of the untyped pointer that carries a callback's
/// context.
pub const C_VOID_STR: &'static str = "* mut :: std :: os :: raw :: c_void";

/// The type is the untyped pointer that carries a callback's context: its
/// text is `C_VOID_STR`, and no other.
pub open spec fn is_c_void(c_type: Seq<char>) -> bool {
    c_type == C_VOID_STR@
}

/// The type is a pointer to a pointer: the slot that an initializer fills.
pub open spec fn is_double_pointer(c_type: Seq<char>) -> bool {
    starts_with(c_type, "* mut * mut"@)
}

/// The name follows the convention of record types: it ends in `_t`.
pub open spec fn follows_convention(c_name: Seq<char>) -> bool {
    ends_with(c_name, "_t"@)
}

/// `handler` and `clientd` stand for a callback and its context: the second is
/// the untyped pointer, the first is no pointer and names a type.
pub open spec fn is_callback_pair(
    handler: (Seq<char>, Seq<char>),
    clientd: (Seq<char>, Seq<char>),
) -> bool {
    is_c_void(clientd.1) && !is_pointer(handler.1) && follows_convention(handler.1)
}

/// The mark that says that `handler` and `clientd` go together.
pub open spec fn pair_mark(
    handler: (Seq<char>, Seq<char>),
    clientd: (Seq<char>, Seq<char>),
) -> ArgProcessingView {
    ArgProcessingView::Handler {
        handler_name: handler.0,
        handler_type: handler.1,
        clientd_name: clientd.0,
        clientd_type: clientd.1,
    }
}

/// How the parameter at `i` is handed on: with its right neighbour where the
/// two are a callback and its context, else with its left neighbour where
/// those two are, else alone.
pub open spec fn mark_at(args: Seq<(Seq<char>, Seq<char>)>, i: int) -> ArgProcessingView {
    if i + 1 < args.len() && is_callback_pair(args[i], args[i + 1]) {
        pair_mark(args[i], args[i + 1])
    } else if 1 <= i && is_callback_pair(args[i - 1], args[i]) {
        pair_mark(args[i - 1], args[i])
    } else {
        ArgProcessingView::Default
    }
}

/// The parameters `args`, each with its mark.
pub open spec fn spec_process_types(args: Seq<(Seq<char>, Seq<char>)>) -> Seq<ArgView> {
    Seq::new(
        args.len(),
        |i: int| ArgView { name: args[i].0, c_type: args[i].1, processing: mark_at(args, i) },
    )
}

/// The untyped pointer is a pointer.
pub proof fn lemma_c_void_is_pointer(c_type: Seq<char>)
    requires
        is_c_void(c_type),
    ensures
        is_pointer(c_type),
{
    reveal_strlit("* mut :: std :: os :: raw :: c_void");
    reveal_strlit("*");
    assert(c_type.subrange(0, 1) =~= "*"@);
}

/// Both parameters of a callback pair carry the mark of that pair, and a
/// parameter that stands in no callback pair carries none.
pub proof fn lemma_callback_marks(args: Seq<(Seq<char>, Seq<char>)>, i: int)
    requires
        0 <= i < args.len(),
    ensures
        i + 1 < args.len() && is_callback_pair(args[i], args[i + 1]) ==> spec_process_types(
            args,
        )[i].processing == pair_mark(args[i], args[i + 1]) && spec_process_types(args)[i
            + 1].processing == pair_mark(args[i], args[i + 1]),
        !(i + 1 < args.len() && is_callback_pair(args[i], args[i + 1])) && !(1 <= i
            && is_callback_pair(args[i - 1], args[i])) ==> spec_process_types(args)[i].processing
            == ArgProcessingView::Default,
{
    if i + 1 < args.len() && is_callback_pair(args[i], args[i + 1]) {
        lemma_c_void_is_pointer(args[i + 1].1);
    }
}

/// A word with its first character in upper case.
pub open spec fn capitalized(word: Seq<char>) -> Seq<char> {
    if word.len() == 0 {
        word
    } else {
        unicode_uppercase(word[0]) + word.skip(1)
    }
}

/// The words in upper-case form, one after the other, without the word `on`.
pub open spec fn pascal_words(words: Seq<Seq<char>>) -> Seq<char>
    decreases words.len(),
{
    if words.len() == 0 {
        Seq::<char>::empty()
    } else if words.last() == "on"@ {
        pascal_words(words.drop_last())
    } else {
        pascal_words(words.drop_last()) + capitalized(words.last())
    }
}

/// `s` without the `_t` at its end, where it has one.
pub open spec fn without_suffix(s: Seq<char>) -> Seq<char> {
    if follows_convention(s) {
        s.take(s.len() - "_t"@.len())
    } else {
        s
    }
}

/// The public name for a type: the words between the underscores of the name
/// without its `_t`, each capitalized, the word `on` left out.
pub open spec fn spec_snake_to_pascal_case(snake: Seq<char>) -> Seq<char> {
    pascal_words(split(without_suffix(snake), '_'))
}

pub fn is_pointer_type(c_type: &str) -> (r: bool)
    ensures
        r == is_pointer(c_type@),
{
    str_starts_with(c_type, "*")
}

pub fn is_c_void_type(c_type: &str) -> (r: bool)
    ensures
        r == is_c_void(c_type@),
{
    str_eq(c_type, C_VOID_STR)
}

pub fn is_double_pointer_type(c_type: &str) -> (r: bool)
    ensures
        r == is_double_pointer(c_type@),
{
    str_starts_with(c_type, "* mut * mut")
}

fn is_pair(handler: &(String, String), clientd: &(String, String)) -> (r: bool)
    ensures
        r == is_callback_pair((handler.0@, handler.1@), (clientd.0@, clientd.1@)),
{
    is_c_void_type(clientd.1.as_str()) && !is_pointer_type(handler.1.as_str()) && str_ends_with(
        handler.1.as_str(),
        "_t",
    )
}

fn mark_of(handler: &(String, String), clientd: &(String, String)) -> (r: ArgProcessing)
    ensures
        r@ == pair_mark((handler.0@, handler.1@), (clientd.0@, clientd.1@)),
{
    ArgProcessing::Handler {
        handler_name: handler.0.clone(),
        handler_type: handler.1.clone(),
        clientd_name: clientd.0.clone(),
        clientd_type: clientd.1.clone(),
    }
}

/// Marks, among the parameters of one function, each callback and the
/// context pointer that follows it.
pub fn process_types(name_and_type: Vec<(String, String)>) -> (result: Vec<Arg>)
    ensures
        args_view(result@) == spec_process_types(pairs_view(name_and_type@)),
{
    let ghost args = pairs_view(name_and_type@);
    let mut result: Vec<Arg> = Vec::new();
    let mut i: usize = 0;
    assert(args_view(result@) =~= spec_process_types(args).take(0));
    while i < name_and_type.len()
        invariant
            i <= name_and_type.len(),
            args == pairs_view(name_and_type@),
            args_view(result@) == spec_process_types(args).take(i as int),
        decreases name_and_type.len() - i,
    {
        let processing = if i + 1 < name_and_type.len() && is_pair(
            &name_and_type[i],
            &name_and_type[i + 1],
        ) {
            mark_of(&name_and_type[i], &name_and_type[i + 1])
        } else if i >= 1 && is_pair(&name_and_type[i - 1], &name_and_type[i]) {
            mark_of(&name_and_type[i - 1], &name_and_type[i])
        } else {
            ArgProcessing::Default
        };
        let arg = Arg {
            name: name_and_type[i].0.clone(),
            c_type: name_and_type[i].1.clone(),
            processing,
        };
        proof {
            lemma_args_push(result@, arg);
            assert(arg@ == spec_process_types(args)[i as int]);
            assert(spec_process_types(args).take(i as int).push(arg@) =~= spec_process_types(
                args,
            ).take(i + 1));
        }
        result.push(arg);
        i += 1;
    }
    assert(spec_process_types(args).take(name_and_type.len() as int) =~= spec_process_types(args));
    result
}

/// `s` without the `_t` at its end, where it has one.
pub fn strip_suffix(s: &str) -> (r: String)
    ensures
        r@ == without_suffix(s@),
{
    let x = chars_of(s);
    if str_ends_with(s, "_t") {
        let n = chars_of("_t").len();
        text_between(&x, 0, x.len() - n)
    } else {
        text_of(&x)
    }
}

fn capitalize(word: &str) -> (r: String)
    ensures
        r@ == capitalized(word@),
{
    let x = chars_of(word);
    if x.len() == 0 {
        return String::new();
    }
    let up = uppercase_of(x[0]);
    let mut r = text_of(&up);
    let rest = text_between(&x, 1, x.len());
    r.append(rest.as_str());
    assert(x@.subrange(1, x.len() as int) =~= x@.skip(1));
    r
}

/// The public name for the type `snake`.
pub fn snake_to_pascal_case(snake: &str) -> (r: String)
    ensures
        r@ == spec_snake_to_pascal_case(snake@),
{
    let base = strip_suffix(snake);
    let words = str_split(base.as_str(), '_');
    let ghost all = strings_view(words@);
    let mut out = String::new();
    let mut i: usize = 0;
    assert(all.take(0) =~= Seq::<Seq<char>>::empty());
    while i < words.len()
        invariant
            i <= words.len(),
            all == strings_view(words@),
            out@ == pascal_words(all.take(i as int)),
        decreases words.len() - i,
    {
        proof {
            let t = all.take(i + 1);
            assert(t.drop_last() =~= all.take(i as int));
            assert(t.last() == words@[i as int]@);
        }
        if !str_eq(words[i].as_str(), "on") {
            let word = capitalize(words[i].as_str());
            out.append(word.as_str());
        }
        i += 1;
    }
    assert(all.take(words.len() as int) =~= all);
    out
}

/// `docs` with `text` at its end, unless it is there already.
pub open spec fn add_doc(docs: Seq<Seq<char>>, text: Seq<char>) -> Seq<Seq<char>> {
    if key_index(docs, text) >= 0 {
        docs
    } else {
        docs.push(text)
    }
}

/// `docs` with each text of `more` that it lacks, in the order of `more`.
pub open spec fn add_docs(docs: Seq<Seq<char>>, more: Seq<Seq<char>>) -> Seq<Seq<char>>
    decreases more.len(),
{
    if more.len() == 0 {
        docs
    } else {
        add_doc(add_docs(docs, more.drop_last()), more.last())
    }
}

/// The type name that a record's name stands for: each `_stct` reads `_t`.
pub open spec fn record_c_name(name: Seq<char>) -> Seq<char> {
    replace(name, "_stct"@, "_t"@)
}

/// A wrapper for a type that is met for the first time.
pub open spec fn fresh_wrapper(
    c_name: Seq<char>,
    fields: Seq<(Seq<char>, Seq<char>)>,
    docs: Seq<Seq<char>>,
) -> CWrapperView {
    CWrapperView {
        class_name: spec_snake_to_pascal_case(c_name),
        c_name,
        without_name: without_suffix(c_name),
        fields,
        methods: Seq::<MethodView>::empty(),
        docs: add_docs(Seq::<Seq<char>>::empty(), docs),
    }
}

/// The model after a declaration of the type `c_name`: a wrapper is made
/// where there is none for it; the documentation is added; the fields, where
/// the declaration has any to give, take the place of those held.
pub open spec fn with_record(
    m: BindingsView,
    c_name: Seq<char>,
    fields: Option<Seq<(Seq<char>, Seq<char>)>>,
    docs: Seq<Seq<char>>,
) -> BindingsView {
    let i = wrapper_index(m.wrappers, c_name);
    if i < 0 {
        BindingsView {
            wrappers: m.wrappers.push(
                fresh_wrapper(
                    c_name,
                    match fields {
                        Some(f) => f,
                        None => Seq::<(Seq<char>, Seq<char>)>::empty(),
                    },
                    docs,
                ),
            ),
            ..m
        }
    } else {
        let w = m.wrappers[i];
        BindingsView {
            wrappers: m.wrappers.update(
                i,
                CWrapperView {
                    fields: match fields {
                        Some(f) => f,
                        None => w.fields,
                    },
                    docs: add_docs(w.docs, docs),
                    ..w
                },
            ),
            ..m
        }
    }
}

/// Every parameter has a name.
pub open spec fn all_named(params: Seq<(Seq<char>, Seq<char>)>) -> bool {
    forall|i: int| 0 <= i < params.len() ==> (#[trigger] params[i]).0.len() > 0
}

/// The parameters are those of a callback: the first is the context
/// pointer, and each has a name.
pub open spec fn is_callback_signature(params: Seq<(Seq<char>, Seq<char>)>) -> bool {
    params.len() > 0 && is_c_void(params[0].1) && all_named(params)
}

/// The signature is that of a callback.
pub open spec fn is_handler_signature(callback: CallbackView) -> bool {
    is_callback_signature(callback.params)
}

/// Whether the parameters are those of a callback.
pub fn is_callback_params(params: &Vec<(String, String)>) -> (r: bool)
    ensures
        r == is_callback_signature(pairs_view(params@)),
{
    let ghost all = pairs_view(params@);
    if params.len() == 0 || !is_c_void_type(params[0].1.as_str()) {
        return false;
    }
    let mut i: usize = 0;
    while i < params.len()
        invariant
            i <= params.len(),
            all == pairs_view(params@),
            forall|j: int| 0 <= j < i ==> (#[trigger] all[j]).0.len() > 0,
        decreases params.len() - i,
    {
        if chars_of(params[i].0.as_str()).len() == 0 {
            assert(all[i as int].0.len() == 0);
            return false;
        }
        i += 1;
    }
    true
}

/// The wrapper that the first argument points to, or `-1`: the last word of
/// the argument's type names it.
pub open spec fn owner_by_argument(
    wrappers: Seq<CWrapperView>,
    arguments: Seq<(Seq<char>, Seq<char>)>,
) -> int {
    if arguments.len() > 0 {
        wrapper_index(wrappers, after_last(arguments[0].1, ' '))
    } else {
        -1
    }
}

/// The wrapper whose type name is the longest start of `name`, cut at an
/// underscore, with `_t` behind it; `-1` where no start of `name` names one.
pub open spec fn owner_by_name(wrappers: Seq<CWrapperView>, name: Seq<char>) -> int
    decreases name.len(),
{
    let i = wrapper_index(wrappers, name + "_t"@);
    if i >= 0 {
        i
    } else {
        let cut = last_index_of(name, '_');
        if 0 <= cut < name.len() {
            owner_by_name(wrappers, name.take(cut))
        } else {
            -1
        }
    }
}

/// The wrapper that owns the function `name`, or `-1`: the one that its first
/// argument points to, else the one that its name leads to.
pub open spec fn owner(
    wrappers: Seq<CWrapperView>,
    name: Seq<char>,
    arguments: Seq<(Seq<char>, Seq<char>)>,
) -> int {
    let a = owner_by_argument(wrappers, arguments);
    if a >= 0 {
        a
    } else {
        owner_by_name(wrappers, name)
    }
}

/// The name of the function `fn_name` as a method of the wrapper whose type
/// name, without its `_t`, is `without_name`: the function's name without
/// that prefix and the underscore behind it.
pub open spec fn method_name_in(without_name: Seq<char>, fn_name: Seq<char>) -> Seq<char> {
    let prefix = without_name + "_"@;
    if starts_with(fn_name, prefix) {
        fn_name.skip(prefix.len() as int)
    } else {
        fn_name
    }
}

/// The model after the declaration of a function: the function goes to the
/// wrapper that owns it, and to the functions without a wrapper where none
/// does.
pub open spec fn with_function(
    m: BindingsView,
    name: Seq<char>,
    arguments: Seq<(Seq<char>, Seq<char>)>,
    return_type: Seq<char>,
    docs: Seq<Seq<char>>,
) -> BindingsView {
    let o = owner(m.wrappers, name, arguments);
    let method = MethodView {
        fn_name: name,
        struct_method_name: if 0 <= o < m.wrappers.len() {
            method_name_in(m.wrappers[o].without_name, name)
        } else {
            Seq::<char>::empty()
        },
        return_type,
        arguments: spec_process_types(arguments),
        docs: add_docs(Seq::<Seq<char>>::empty(), docs),
    };
    if 0 <= o < m.wrappers.len() {
        let w = m.wrappers[o];
        BindingsView {
            wrappers: m.wrappers.update(o, CWrapperView { methods: w.methods.push(method), ..w }),
            ..m
        }
    } else {
        BindingsView { methods: m.methods.push(method), ..m }
    }
}

/// The model after one more declaration.
pub open spec fn absorb(m: BindingsView, d: DeclarationView) -> BindingsView {
    match d {
        DeclarationView::Record { name, fields, docs } => {
            if follows_convention(record_c_name(name)) {
                with_record(m, record_c_name(name), Some(fields), docs)
            } else {
                m
            }
        },
        DeclarationView::Alias { name, text, callback, docs } => {
            if contains(text, "_stct"@) {
                if follows_convention(name) {
                    with_record(m, name, None, docs)
                } else {
                    m
                }
            } else if callback is Some && is_handler_signature(callback->0) {
                BindingsView {
                    handlers: m.handlers.push(
                        HandlerView {
                            c_name: name,
                            args: callback->0.params,
                            return_type: callback->0.return_type,
                            docs: add_docs(Seq::<Seq<char>>::empty(), docs),
                        },
                    ),
                    ..m
                }
            } else {
                m
            }
        },
        DeclarationView::Function { name, arguments, return_type, docs } => with_function(
            m,
            name,
            arguments,
            return_type,
            docs,
        ),
    }
}

/// The model without anything in it.
pub open spec fn empty_model() -> BindingsView {
    BindingsView {
        wrappers: Seq::<CWrapperView>::empty(),
        methods: Seq::<MethodView>::empty(),
        handlers: Seq::<HandlerView>::empty(),
    }
}

/// The model after the declarations `decls`, taken in order.
pub open spec fn absorb_all(decls: Seq<DeclarationView>) -> BindingsView
    decreases decls.len(),
{
    if decls.len() == 0 {
        empty_model()
    } else {
        absorb(absorb_all(decls.drop_last()), decls.last())
    }
}

fn merge_docs(docs: &mut Vec<String>, more: &Vec<String>)
    ensures
        strings_view(final(docs)@) == add_docs(strings_view(old(docs)@), strings_view(more@)),
{
    let ghost start = strings_view(docs@);
    let ghost all = strings_view(more@);
    let mut i: usize = 0;
    assert(all.take(0) =~= Seq::<Seq<char>>::empty());
    while i < more.len()
        invariant
            i <= more.len(),
            all == strings_view(more@),
            strings_view(docs@) == add_docs(start, all.take(i as int)),
        decreases more.len() - i,
    {
        proof {
            let t = all.take(i + 1);
            assert(t.drop_last() =~= all.take(i as int));
            assert(t.last() == more@[i as int]@);
        }
        if find_key(docs, more[i].as_str()).is_none() {
            let c = copy_string(&more[i]);
            proof {
                lemma_strings_push(docs@, c);
            }
            docs.push(c);
        }
        i += 1;
    }
    assert(all.take(more.len() as int) =~= all);
}

fn record_wrapper(
    model: &mut Bindings,
    c_name: String,
    fields: Option<Vec<(String, String)>>,
    docs: &Vec<String>,
)
    ensures
        final(model)@ == with_record(
            old(model)@,
            c_name@,
            match fields {
                Some(f) => Some(pairs_view(f@)),
                None => None,
            },
            strings_view(docs@),
        ),
{
    let ghost before = model@;
    match find_wrapper(&model.wrappers, c_name.as_str()) {
        Some(i) => {
            let ghost w = before.wrappers[i as int];
            merge_docs(&mut model.wrappers[i].docs, docs);
            let ghost new_fields = if fields is Some {
                pairs_view(fields->0@)
            } else {
                w.fields
            };
            match fields {
                Some(f) => {
                    model.wrappers[i].fields = f;
                },
                None => {},
            }
            assert(model@.wrappers =~= before.wrappers.update(
                i as int,
                CWrapperView { fields: new_fields, docs: add_docs(w.docs, strings_view(docs@)), ..w },
            ));
        },
        None => {
            let class_name = snake_to_pascal_case(c_name.as_str());
            let without_name = strip_suffix(c_name.as_str());
            let mut own_docs: Vec<String> = Vec::new();
            assert(strings_view(own_docs@) =~= Seq::<Seq<char>>::empty());
            merge_docs(&mut own_docs, docs);
            let own_fields = match fields {
                Some(f) => f,
                None => {
                    let e: Vec<(String, String)> = Vec::new();
                    assert(pairs_view(e@) =~= Seq::<(Seq<char>, Seq<char>)>::empty());
                    e
                },
            };
            let methods: Vec<Method> = Vec::new();
            assert(methods_view(methods@) =~= Seq::<MethodView>::empty());
            let w = CWrapper {
                class_name,
                c_name,
                without_name,
                fields: own_fields,
                methods,
                docs: own_docs,
            };
            proof {
                lemma_wrappers_push(model.wrappers@, w);
            }
            model.wrappers.push(w);
        },
    }
}

fn owner_by_name_of(wrappers: &Vec<CWrapper>, name: &str) -> (r: Option<usize>)
    ensures
        match r {
            Some(i) => i < wrappers.len() && i == owner_by_name(wrappers_view(wrappers@), name@),
            None => owner_by_name(wrappers_view(wrappers@), name@) == -1,
        },
{
    let ghost ws = wrappers_view(wrappers@);
    let mut candidate = chars_of(name);
    loop
        invariant
            ws == wrappers_view(wrappers@),
            owner_by_name(ws, candidate@) == owner_by_name(ws, name@),
        decreases candidate.len(),
    {
        let mut probe = text_of(&candidate);
        probe.append("_t");
        match find_wrapper(wrappers, probe.as_str()) {
            Some(i) => {
                return Some(i);
            },
            None => {},
        }
        match vec_last_index_of(&candidate, '_') {
            Some(cut) => {
                let shorter = text_between(&candidate, 0, cut);
                assert(candidate@.subrange(0, cut as int) =~= candidate@.take(cut as int));
                candidate = chars_of(shorter.as_str());
            },
            None => {
                return None;
            },
        }
    }
}

fn owner_of(wrappers: &Vec<CWrapper>, name: &str, arguments: &Vec<(String, String)>) -> (r: Option<
    usize,
>)
    ensures
        match r {
            Some(i) => i < wrappers.len() && i == owner(
                wrappers_view(wrappers@),
                name@,
                pairs_view(arguments@),
            ),
            None => owner(wrappers_view(wrappers@), name@, pairs_view(arguments@)) == -1,
        },
{
    if arguments.len() > 0 {
        let pointee = str_after_last(arguments[0].1.as_str(), ' ');
        match find_wrapper(wrappers, pointee.as_str()) {
            Some(i) => {
                return Some(i);
            },
            None => {},
        }
    }
    owner_by_name_of(wrappers, name)
}

fn method_name_of(without_name: &str, fn_name: &str) -> (r: String)
    ensures
        r@ == method_name_in(without_name@, fn_name@),
{
    let mut prefix = String::from_str(without_name);
    prefix.append("_");
    let x = chars_of(fn_name);
    if str_starts_with(fn_name, prefix.as_str()) {
        let n = chars_of(prefix.as_str()).len();
        assert(x@.subrange(n as int, x.len() as int) =~= x@.skip(n as int));
        text_between(&x, n, x.len())
    } else {
        text_of(&x)
    }
}

fn function_method(
    model: &mut Bindings,
    name: &String,
    arguments: &Vec<(String, String)>,
    return_type: &String,
    docs: &Vec<String>,
)
    ensures
        final(model)@ == with_function(
            old(model)@,
            name@,
            pairs_view(arguments@),
            return_type@,
            strings_view(docs@),
        ),
{
    let ghost before = model@;
    let mut own_docs: Vec<String> = Vec::new();
    assert(strings_view(own_docs@) =~= Seq::<Seq<char>>::empty());
    merge_docs(&mut own_docs, docs);
    let marked = process_types(copy_pairs(arguments));
    match owner_of(&model.wrappers, name.as_str(), arguments) {
        Some(o) => {
            let ghost w = before.wrappers[o as int];
            let method = Method {
                fn_name: copy_string(name),
                struct_method_name: method_name_of(
                    model.wrappers[o].without_name.as_str(),
                    name.as_str(),
                ),
                return_type: copy_string(return_type),
                arguments: marked,
                docs: own_docs,
            };
            proof {
                lemma_methods_push(model.wrappers@[o as int].methods@, method);
            }
            model.wrappers[o].methods.push(method);
            assert(model@.wrappers =~= before.wrappers.update(
                o as int,
                CWrapperView { methods: w.methods.push(method@), ..w },
            ));
        },
        None => {
            let method = Method {
                fn_name: copy_string(name),
                struct_method_name: String::new(),
                return_type: copy_string(return_type),
                arguments: marked,
                docs: own_docs,
            };
            proof {
                lemma_methods_push(model.methods@, method);
                lemma_key_index(wrapper_names(before.wrappers), name@);
            }
            model.methods.push(method);
        },
    }
}

/// Takes one more declaration into the model.
pub fn absorb_declaration(model: &mut Bindings, d: &Declaration)
    ensures
        final(model)@ == absorb(old(model)@, d@),
{
    match d {
        Declaration::Record { name, fields, docs } => {
            let c_name = str_replace(name.as_str(), "_stct", "_t");
            if str_ends_with(c_name.as_str(), "_t") {
                record_wrapper(model, c_name, Some(copy_pairs(fields)), docs);
            }
        },
        Declaration::Alias { name, text, callback, docs } => {
            if str_contains(text.as_str(), "_stct") {
                if str_ends_with(name.as_str(), "_t") {
                    record_wrapper(model, copy_string(name), None, docs);
                }
            } else {
                match callback {
                    Some(c) => {
                        if is_callback_params(&c.params) {
                            let mut own_docs: Vec<String> = Vec::new();
                            assert(strings_view(own_docs@) =~= Seq::<Seq<char>>::empty());
                            merge_docs(&mut own_docs, docs);
                            let h = Handler {
                                c_name: copy_string(name),
                                args: copy_pairs(&c.params),
                                return_type: copy_string(&c.return_type),
                                docs: own_docs,
                            };
                            proof {
                                lemma_handlers_push(model.handlers@, h);
                            }
                            model.handlers.push(h);
                        }
                    },
                    None => {},
                }
            }
        },
        Declaration::Function { name, arguments, return_type, docs } => {
            function_method(model, name, arguments, return_type, docs);
        },
    }
}

/// The parameter as the model keeps it: a callback mark stays only where the
/// callback's type is among the callback signatures.
pub open spec fn demoted_arg(a: ArgView, handlers: Seq<HandlerView>) -> ArgView {
    match a.processing {
        ArgProcessingView::Handler { handler_type, .. } => {
            if handler_index(handlers, handler_type) < 0 {
                ArgView { processing: ArgProcessingView::Default, ..a }
            } else {
                a
            }
        },
        ArgProcessingView::Default => a,
    }
}

/// The parameters, each as the model keeps it.
pub open spec fn demoted_args(args: Seq<ArgView>, handlers: Seq<HandlerView>) -> Seq<ArgView> {
    Seq::new(args.len(), |k: int| demoted_arg(args[k], handlers))
}

/// The method with its parameters as the model keeps them.
pub open spec fn demoted_method(m: MethodView, handlers: Seq<HandlerView>) -> MethodView {
    MethodView { arguments: demoted_args(m.arguments, handlers), ..m }
}

/// The methods, each with its parameters as the model keeps them.
pub open spec fn demoted_methods(methods: Seq<MethodView>, handlers: Seq<HandlerView>) -> Seq<
    MethodView,
> {
    Seq::new(methods.len(), |k: int| demoted_method(methods[k], handlers))
}

/// The wrapper with its methods' parameters as the model keeps them.
pub open spec fn demoted_wrapper(w: CWrapperView, handlers: Seq<HandlerView>) -> CWrapperView {
    CWrapperView { methods: demoted_methods(w.methods, handlers), ..w }
}

/// The wrappers, each with its methods' parameters as the model keeps them.
pub open spec fn demoted_wrappers(wrappers: Seq<CWrapperView>, handlers: Seq<HandlerView>) -> Seq<
    CWrapperView,
> {
    Seq::new(wrappers.len(), |k: int| demoted_wrapper(wrappers[k], handlers))
}

/// The model in which no parameter is marked as a callback whose type is not
/// among the callback signatures.
pub open spec fn demoted(m: BindingsView) -> BindingsView {
    BindingsView {
        wrappers: demoted_wrappers(m.wrappers, m.handlers),
        methods: demoted_methods(m.methods, m.handlers),
        handlers: m.handlers,
    }
}

/// The type name starts with one of the prefixes of `deny`.
pub open spec fn is_denied(c_name: Seq<char>, deny: Seq<Seq<char>>) -> bool {
    exists|i: int| 0 <= i < deny.len() && starts_with(c_name, #[trigger] deny[i])
}

/// The wrappers whose type name is not denied, in their order.
pub open spec fn allowed(wrappers: Seq<CWrapperView>, deny: Seq<Seq<char>>) -> Seq<CWrapperView>
    decreases wrappers.len(),
{
    if wrappers.len() == 0 {
        wrappers
    } else if is_denied(wrappers[0].c_name, deny) {
        allowed(wrappers.skip(1), deny)
    } else {
        seq![wrappers[0]] + allowed(wrappers.skip(1), deny)
    }
}

/// The prefixes of the type names for which no wrapper is made: subsystems
/// of the foreign library that do not follow its conventions.
pub open spec fn default_deny() -> Seq<Seq<char>> {
    seq!["aeron_thread"@, "aeron_command"@, "aeron_executor"@, "aeron_name_resolver"@]
}

/// The declaration model of the dump `decls`, without the wrappers that
/// `deny` excludes.
pub open spec fn extracted(decls: Seq<DeclarationView>, deny: Seq<Seq<char>>) -> BindingsView {
    let m = demoted(absorb_all(decls));
    BindingsView { wrappers: allowed(m.wrappers, deny), ..m }
}

/// What holds of every wrapper of a model: its type name follows the
/// convention, and its other names are made from it.
pub open spec fn wrapper_wf(w: CWrapperView) -> bool {
    &&& follows_convention(w.c_name)
    &&& w.without_name == without_suffix(w.c_name)
    &&& w.class_name == spec_snake_to_pascal_case(w.c_name)
}

/// What holds of every callback signature of a model: it has parameters,
/// the first of them is the context pointer, and each has a name.
pub open spec fn handler_wf(h: HandlerView) -> bool {
    is_callback_signature(h.args)
}

/// What holds of every model: no type has two wrappers, each wrapper is
/// well-formed, and so is each callback signature.
pub open spec fn model_wf(m: BindingsView) -> bool {
    &&& distinct_names(m.wrappers)
    &&& forall|i: int| 0 <= i < m.wrappers.len() ==> wrapper_wf(#[trigger] m.wrappers[i])
    &&& forall|i: int| 0 <= i < m.handlers.len() ==> handler_wf(#[trigger] m.handlers[i])
}

/// One more declaration leaves the model well-formed.
pub proof fn lemma_absorb_wf(m: BindingsView, d: DeclarationView)
    requires
        model_wf(m),
    ensures
        model_wf(absorb(m, d)),
{
    let n = absorb(m, d);
    match d {
        DeclarationView::Record { name, fields, docs } => {
            lemma_key_index(wrapper_names(m.wrappers), record_c_name(name));
        },
        DeclarationView::Alias { name, text, callback, docs } => {
            lemma_key_index(wrapper_names(m.wrappers), name);
        },
        DeclarationView::Function { name, arguments, return_type, docs } => {},
    }
    assert forall|i: int, j: int| 0 <= i < j < n.wrappers.len() implies (
    #[trigger] n.wrappers[i]).c_name != (#[trigger] n.wrappers[j]).c_name by {
        if j < m.wrappers.len() {
            assert(m.wrappers[i].c_name != m.wrappers[j].c_name);
        } else {
            assert(wrapper_names(m.wrappers)[i] == m.wrappers[i].c_name);
        }
    }
    assert forall|i: int| 0 <= i < n.wrappers.len() implies wrapper_wf(
        #[trigger] n.wrappers[i],
    ) by {
        if i < m.wrappers.len() {
            assert(wrapper_wf(m.wrappers[i]));
        }
    }
    assert forall|i: int| 0 <= i < n.handlers.len() implies handler_wf(
        #[trigger] n.handlers[i],
    ) by {
        if i < m.handlers.len() {
            assert(handler_wf(m.handlers[i]));
        }
    }
}

/// The model of any dump is well-formed before the denied wrappers leave.
pub proof fn lemma_absorb_all_wf(decls: Seq<DeclarationView>)
    ensures
        model_wf(absorb_all(decls)),
    decreases decls.len(),
{
    if decls.len() > 0 {
        lemma_absorb_all_wf(decls.drop_last());
        lemma_absorb_wf(absorb_all(decls.drop_last()), decls.last());
    }
}

/// Each allowed wrapper is one of the wrappers and is not denied, and no
/// wrapper that is not denied is lost.
pub proof fn lemma_allowed(wrappers: Seq<CWrapperView>, deny: Seq<Seq<char>>)
    ensures
        forall|i: int|
            0 <= i < allowed(wrappers, deny).len() ==> !is_denied(
                (#[trigger] allowed(wrappers, deny)[i]).c_name,
                deny,
            ) && wrappers.contains(allowed(wrappers, deny)[i]),
        forall|j: int|
            0 <= j < wrappers.len() && !is_denied((#[trigger] wrappers[j]).c_name, deny)
                ==> allowed(wrappers, deny).contains(wrappers[j]),
        allowed(wrappers, deny).len() <= wrappers.len(),
    decreases wrappers.len(),
{
    if wrappers.len() > 0 {
        let t = wrappers.skip(1);
        let a = allowed(wrappers, deny);
        let b = allowed(t, deny);
        lemma_allowed(t, deny);
        assert forall|i: int| 0 <= i < a.len() implies !is_denied((#[trigger] a[i]).c_name, deny)
            && wrappers.contains(a[i]) by {
            if is_denied(wrappers[0].c_name, deny) {
                let k = choose|k: int| 0 <= k < t.len() && t[k] == b[i];
                assert(wrappers[k + 1] == a[i]);
            } else if i == 0 {
                assert(wrappers[0] == a[0]);
            } else {
                assert(a[i] == b[i - 1]);
                let k = choose|k: int| 0 <= k < t.len() && t[k] == b[i - 1];
                assert(wrappers[k + 1] == a[i]);
            }
        }
        assert forall|j: int|
            0 <= j < wrappers.len() && !is_denied(
                (#[trigger] wrappers[j]).c_name,
                deny,
            ) implies a.contains(wrappers[j]) by {
            if j == 0 {
                assert(a[0] == wrappers[0]);
            } else {
                assert(t[j - 1] == wrappers[j]);
                let k = choose|k: int| 0 <= k < b.len() && b[k] == t[j - 1];
                if is_denied(wrappers[0].c_name, deny) {
                    assert(a[k] == wrappers[j]);
                } else {
                    assert(a[k + 1] == wrappers[j]);
                }
            }
        }
    }
}

/// Leaving wrappers out keeps the rest distinct.
pub proof fn lemma_allowed_distinct(wrappers: Seq<CWrapperView>, deny: Seq<Seq<char>>)
    requires
        distinct_names(wrappers),
    ensures
        distinct_names(allowed(wrappers, deny)),
    decreases wrappers.len(),
{
    if wrappers.len() > 0 {
        let t = wrappers.skip(1);
        let a = allowed(wrappers, deny);
        let b = allowed(t, deny);
        assert forall|i: int, j: int| 0 <= i < j < t.len() implies (#[trigger] t[i]).c_name != (
        #[trigger] t[j]).c_name by {
            assert(t[i] == wrappers[i + 1] && t[j] == wrappers[j + 1]);
        }
        lemma_allowed_distinct(t, deny);
        lemma_allowed(t, deny);
        if !is_denied(wrappers[0].c_name, deny) {
            assert forall|i: int, j: int| 0 <= i < j < a.len() implies (#[trigger] a[i]).c_name
                != (#[trigger] a[j]).c_name by {
                assert(a[j] == b[j - 1]);
                if i == 0 {
                    let k = choose|k: int| 0 <= k < t.len() && t[k] == b[j - 1];
                    assert(wrappers[k + 1] == a[j]);
                    assert(wrappers[0].c_name != wrappers[k + 1].c_name);
                } else {
                    assert(a[i] == b[i - 1]);
                }
            }
        }
    }
}

/// The model of any dump is well-formed, and holds no wrapper whose type
/// name starts with a denied prefix, whatever the dump declares for it.
pub proof fn lemma_extracted(decls: Seq<DeclarationView>, deny: Seq<Seq<char>>)
    ensures
        model_wf(extracted(decls, deny)),
        forall|i: int|
            0 <= i < extracted(decls, deny).wrappers.len() ==> !is_denied(
                (#[trigger] extracted(decls, deny).wrappers[i]).c_name,
                deny,
            ),
{
    let raw = absorb_all(decls);
    let m = demoted(raw);
    let e = extracted(decls, deny);
    lemma_absorb_all_wf(decls);
    assert(distinct_names(m.wrappers)) by {
        assert forall|i: int, j: int| 0 <= i < j < m.wrappers.len() implies (
        #[trigger] m.wrappers[i]).c_name != (#[trigger] m.wrappers[j]).c_name by {
            assert(raw.wrappers[i].c_name != raw.wrappers[j].c_name);
        }
    }
    lemma_allowed_distinct(m.wrappers, deny);
    lemma_allowed(m.wrappers, deny);
    assert forall|i: int| 0 <= i < e.wrappers.len() implies wrapper_wf(
        #[trigger] e.wrappers[i],
    ) by {
        let k = choose|k: int| 0 <= k < m.wrappers.len() && m.wrappers[k] == e.wrappers[i];
        assert(wrapper_wf(raw.wrappers[k]));
    }
    assert forall|i: int| 0 <= i < e.handlers.len() implies handler_wf(
        #[trigger] e.handlers[i],
    ) by {
        assert(handler_wf(raw.handlers[i]));
    }
}

/// How many functions the wrappers own together.
pub open spec fn owned_count(wrappers: Seq<CWrapperView>) -> int
    decreases wrappers.len(),
{
    if wrappers.len() == 0 {
        0
    } else {
        owned_count(wrappers.drop_last()) + wrappers.last().methods.len()
    }
}

/// How many functions the model holds, owned or not.
pub open spec fn function_count(m: BindingsView) -> int {
    owned_count(m.wrappers) + m.methods.len()
}

/// A wrapper that changes changes the count by what it gains.
pub proof fn lemma_owned_update(wrappers: Seq<CWrapperView>, k: int, w: CWrapperView)
    requires
        0 <= k < wrappers.len(),
    ensures
        owned_count(wrappers.update(k, w)) == owned_count(wrappers) - wrappers[k].methods.len()
            + w.methods.len(),
    decreases wrappers.len(),
{
    let after = wrappers.update(k, w);
    if k == wrappers.len() - 1 {
        assert(after.drop_last() =~= wrappers.drop_last());
    } else {
        assert(after.drop_last() =~= wrappers.drop_last().update(k, w));
        lemma_owned_update(wrappers.drop_last(), k, w);
    }
}

/// Every function of a dump is in the model once: its declaration adds one
/// function, to one wrapper or to the functions without one, and no other
/// declaration adds or takes any.
pub proof fn lemma_one_owner(m: BindingsView, d: DeclarationView)
    ensures
        function_count(absorb(m, d)) == function_count(m) + (if d is Function {
            1int
        } else {
            0int
        }),
{
    let n = absorb(m, d);
    match d {
        DeclarationView::Record { name, fields, docs } => {
            let c_name = record_c_name(name);
            let i = wrapper_index(m.wrappers, c_name);
            lemma_key_index(wrapper_names(m.wrappers), c_name);
            if follows_convention(c_name) {
                if i < 0 {
                    assert(n.wrappers.drop_last() =~= m.wrappers);
                } else {
                    lemma_owned_update(m.wrappers, i, n.wrappers[i]);
                }
            }
        },
        DeclarationView::Alias { name, text, callback, docs } => {
            let i = wrapper_index(m.wrappers, name);
            lemma_key_index(wrapper_names(m.wrappers), name);
            if contains(text, "_stct"@) && follows_convention(name) {
                if i < 0 {
                    assert(n.wrappers.drop_last() =~= m.wrappers);
                } else {
                    lemma_owned_update(m.wrappers, i, n.wrappers[i]);
                }
            }
        },
        DeclarationView::Function { name, arguments, return_type, docs } => {
            let o = owner(m.wrappers, name, arguments);
            if 0 <= o < m.wrappers.len() {
                lemma_owned_update(m.wrappers, o, n.wrappers[o]);
            }
        },
    }
}

/// The model depends on the dump alone: the same declarations and the same
/// denied prefixes give the same wrappers, the same methods with the same
/// owners, and the same callback signatures.
pub proof fn lemma_extraction_is_a_function(
    first: Seq<Declaration>,
    second: Seq<Declaration>,
    deny: Seq<Seq<char>>,
)
    requires
        declarations_view(first) == declarations_view(second),
    ensures
        extracted(declarations_view(first), deny) == extracted(declarations_view(second), deny),
{
}

fn demote_args(args: &mut Vec<Arg>, handlers: &Vec<Handler>)
    ensures
        args_view(final(args)@) == demoted_args(args_view(old(args)@), handlers_view(handlers@)),
{
    let ghost before = args_view(args@);
    let ghost hs = handlers_view(handlers@);
    let mut k: usize = 0;
    while k < args.len()
        invariant
            k <= args.len(),
            hs == handlers_view(handlers@),
            args.len() == before.len(),
            forall|j: int| 0 <= j < k ==> (#[trigger] args@[j])@ == demoted_arg(before[j], hs),
            forall|j: int| k <= j < args.len() ==> (#[trigger] args@[j])@ == before[j],
        decreases args.len() - k,
    {
        let demote = match &args[k].processing {
            ArgProcessing::Handler { handler_type, .. } => find_handler(
                handlers,
                handler_type.as_str(),
            ).is_none(),
            ArgProcessing::Default => false,
        };
        if demote {
            args[k].processing = ArgProcessing::Default;
        }
        k += 1;
    }
    assert(args_view(args@) =~= demoted_args(before, hs));
}

fn demote_methods(methods: &mut Vec<Method>, handlers: &Vec<Handler>)
    ensures
        methods_view(final(methods)@) == demoted_methods(
            methods_view(old(methods)@),
            handlers_view(handlers@),
        ),
{
    let ghost before = methods_view(methods@);
    let ghost hs = handlers_view(handlers@);
    let mut k: usize = 0;
    while k < methods.len()
        invariant
            k <= methods.len(),
            hs == handlers_view(handlers@),
            methods.len() == before.len(),
            forall|j: int|
                0 <= j < k ==> (#[trigger] methods@[j])@ == demoted_method(before[j], hs),
            forall|j: int| k <= j < methods.len() ==> (#[trigger] methods@[j])@ == before[j],
        decreases methods.len() - k,
    {
        demote_args(&mut methods[k].arguments, handlers);
        k += 1;
    }
    assert(methods_view(methods@) =~= demoted_methods(before, hs));
}

fn demote_wrappers(wrappers: &mut Vec<CWrapper>, handlers: &Vec<Handler>)
    ensures
        wrappers_view(final(wrappers)@) == demoted_wrappers(
            wrappers_view(old(wrappers)@),
            handlers_view(handlers@),
        ),
{
    let ghost before = wrappers_view(wrappers@);
    let ghost hs = handlers_view(handlers@);
    let mut k: usize = 0;
    while k < wrappers.len()
        invariant
            k <= wrappers.len(),
            hs == handlers_view(handlers@),
            wrappers.len() == before.len(),
            forall|j: int|
                0 <= j < k ==> (#[trigger] wrappers@[j])@ == demoted_wrapper(before[j], hs),
            forall|j: int| k <= j < wrappers.len() ==> (#[trigger] wrappers@[j])@ == before[j],
        decreases wrappers.len() - k,
    {
        demote_methods(&mut wrappers[k].methods, handlers);
        k += 1;
    }
    assert(wrappers_view(wrappers@) =~= demoted_wrappers(before, hs));
}

/// Whether the type name starts with one of the prefixes of `deny`.
pub fn is_denied_name(c_name: &str, deny: &Vec<String>) -> (r: bool)
    ensures
        r == is_denied(c_name@, strings_view(deny@)),
{
    let ghost list = strings_view(deny@);
    let mut i: usize = 0;
    while i < deny.len()
        invariant
            i <= deny.len(),
            list == strings_view(deny@),
            forall|j: int| 0 <= j < i ==> !starts_with(c_name@, #[trigger] list[j]),
        decreases deny.len() - i,
    {
        if str_starts_with(c_name, deny[i].as_str()) {
            assert(starts_with(c_name@, list[i as int]));
            return true;
        }
        i += 1;
    }
    false
}

fn keep_allowed(wrappers: Vec<CWrapper>, deny: &Vec<String>) -> (kept: Vec<CWrapper>)
    ensures
        wrappers_view(kept@) == allowed(wrappers_view(wrappers@), strings_view(deny@)),
{
    let ghost all = wrappers_view(wrappers@);
    let ghost list = strings_view(deny@);
    let mut rest = wrappers;
    let mut kept: Vec<CWrapper> = Vec::new();
    assert(wrappers_view(kept@) + allowed(all, list) =~= allowed(all, list));
    while rest.len() > 0
        invariant
            list == strings_view(deny@),
            wrappers_view(kept@) + allowed(wrappers_view(rest@), list) == allowed(all, list),
        decreases rest.len(),
    {
        let ghost before = wrappers_view(rest@);
        let ghost done = wrappers_view(kept@);
        let w = rest.remove(0);
        assert(wrappers_view(rest@) =~= before.skip(1));
        assert(before[0] == w@);
        if !is_denied_name(w.c_name.as_str(), deny) {
            proof {
                lemma_wrappers_push(kept@, w);
                assert(done.push(w@) + allowed(before.skip(1), list) =~= done + (seq![w@] + allowed(
                    before.skip(1),
                    list,
                )));
            }
            kept.push(w);
        }
    }
    assert(wrappers_view(kept@) + Seq::<CWrapperView>::empty() =~= wrappers_view(kept@));
    kept
}

/// The prefixes of the type names for which no wrapper is made.
pub fn default_deny_list() -> (deny: Vec<String>)
    ensures
        strings_view(deny@) == default_deny(),
{
    let mut deny: Vec<String> = Vec::new();
    deny.push(String::from_str("aeron_thread"));
    deny.push(String::from_str("aeron_command"));
    deny.push(String::from_str("aeron_executor"));
    deny.push(String::from_str("aeron_name_resolver"));
    assert(strings_view(deny@) =~= default_deny());
    deny
}

/// The declaration model of a dump. Every record that follows the naming
/// convention gets one wrapper; every function goes to the wrapper that owns
/// it, or to the functions without one; every callback signature is kept;
/// a parameter stays marked as a callback only where its type is one of
/// those signatures; and no wrapper is made for a type that `deny` excludes.
pub fn extract_bindings_with(decls: &Vec<Declaration>, deny: &Vec<String>) -> (model: Bindings)
    ensures
        model@ == extracted(declarations_view(decls@), strings_view(deny@)),
        model_wf(model@),
        forall|i: int|
            0 <= i < model@.wrappers.len() ==> !is_denied(
                (#[trigger] model@.wrappers[i]).c_name,
                strings_view(deny@),
            ),
{
    let ghost all = declarations_view(decls@);
    let mut model = Bindings { wrappers: Vec::new(), methods: Vec::new(), handlers: Vec::new() };
    assert(model@.wrappers =~= Seq::<CWrapperView>::empty());
    assert(model@.methods =~= Seq::<MethodView>::empty());
    assert(model@.handlers =~= Seq::<HandlerView>::empty());
    assert(all.take(0) =~= Seq::<DeclarationView>::empty());
    let mut i: usize = 0;
    while i < decls.len()
        invariant
            i <= decls.len(),
            all == declarations_view(decls@),
            model@ == absorb_all(all.take(i as int)),
        decreases decls.len() - i,
    {
        proof {
            let t = all.take(i + 1);
            assert(t.drop_last() =~= all.take(i as int));
            assert(t.last() == decls@[i as int]@);
        }
        absorb_declaration(&mut model, &decls[i]);
        i += 1;
    }
    assert(all.take(decls.len() as int) =~= all);
    let Bindings { wrappers, methods, handlers } = model;
    let mut wrappers = wrappers;
    let mut methods = methods;
    demote_wrappers(&mut wrappers, &handlers);
    demote_methods(&mut methods, &handlers);
    let kept = keep_allowed(wrappers, deny);
    proof {
        lemma_extracted(all, strings_view(deny@));
    }
    Bindings { wrappers: kept, methods, handlers }
}

/// The declaration model of a dump, without the wrappers of the subsystems
/// that do not follow the conventions.
pub fn extract_bindings(decls: &Vec<Declaration>) -> (model: Bindings)
    ensures
        model@ == extracted(declarations_view(decls@), default_deny()),
        model_wf(model@),
        forall|i: int|
            0 <= i < model@.wrappers.len() ==> !is_denied(
                (#[trigger] model@.wrappers[i]).c_name,
                default_deny(),
            ),
{
    let deny = default_deny_list();
    extract_bindings_with(decls, &deny)
}

/// The declaration model of a dump given as text: that of the declarations
/// which the items of the dump stand for. A dump that is not Rust source is
/// an error: there is no model of a part of a dump.
pub fn parse_bindings(text: &str) -> (r: Result<Bindings, ExtractionError>)
    ensures
        r is Ok <==> dump_parses(text@),
        match r {
            Ok(model) => {
                &&& dump_items(text@) is Ok
                &&& model@ == extracted(declarations_of(dump_items(text@)->Ok_0), default_deny())
                &&& model_wf(model@)
                &&& forall|i: int|
                    0 <= i < model@.wrappers.len() ==> !is_denied(
                        (#[trigger] model@.wrappers[i]).c_name,
                        default_deny(),
                    )
            },
            Err(e) => dump_items(text@) == Err::<Seq<Seq<char>>, Seq<char>>(e.message@),
        },
{
    match read_dump(text) {
        Ok(decls) => Ok(extract_bindings(&decls)),
        Err(e) => Err(e),
    }
}

} // verus!
