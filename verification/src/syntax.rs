//! Reading a declaration dump: the dump is Rust source, which `syn` parses;
//! what the extractor needs of each item is taken out as text.
//!
//! `syn` is asked in steps. The dump gives the text of each of its items;
//! the text of an item gives its parts; the text of an attribute gives its
//! path and value. What `syn` answers depends on the text alone, so each
//! answer has a name, and what is made of the answers is stated over the
//! names.

use crate::model::{
    declarations_view, lemma_pairs_push, lemma_strings_push, pairs_view, Callback, CallbackView,
    Declaration, DeclarationView,
};
use crate::text::{
    chars_of, first_index_of, starts_with, str_eq, str_starts_with, str_trim, strings_view,
    text_between, trim, vec_first_index_of,
};
use quote::ToTokens;
use vstd::prelude::*;
use vstd::string::StringExecFns;

verus! {

/// The parts of a record: its name, its fields with their names and the
/// text of their types, and the text of each of its attributes.
#[derive(Debug, Clone, PartialEq, Eq)]
pub struct RecordParts {
    pub name: String,
    pub fields: Vec<(Option<String>, String)>,
    pub attributes: Vec<String>,
}

pub struct RecordPartsView {
    pub name: Seq<char>,
    pub fields: Seq<(Seq<char>, Seq<char>)>,
    pub attributes: Seq<Seq<char>>,
}

impl View for RecordParts {
    type V = RecordPartsView;

    open spec fn view(&self) -> RecordPartsView {
        RecordPartsView {
            name: self.name@,
            fields: named_view(self.fields@),
            attributes: strings_view(self.attributes@),
        }
    }
}

/// The parts of a type alias: its name, the text of the type that it stands
/// for, and the text of each of its attributes.
#[derive(Debug, Clone, PartialEq, Eq)]
pub struct AliasParts {
    pub name: String,
    pub target: String,
    pub attributes: Vec<String>,
}

pub struct AliasPartsView {
    pub name: Seq<char>,
    pub target: Seq<char>,
    pub attributes: Seq<Seq<char>>,
}

impl View for AliasParts {
    type V = AliasPartsView;

    open spec fn view(&self) -> AliasPartsView {
        AliasPartsView {
            name: self.name@,
            target: self.target@,
            attributes: strings_view(self.attributes@),
        }
    }
}

/// The parts of a function-pointer type: its parameters with their names
/// and the text of their types, and the text of its return type with its
/// arrow.
#[derive(Debug, Clone, PartialEq, Eq)]
pub struct SignatureParts {
    pub params: Vec<(Option<String>, String)>,
    pub output: String,
}

pub struct SignaturePartsView {
    pub params: Seq<(Seq<char>, Seq<char>)>,
    pub output: Seq<char>,
}

impl View for SignatureParts {
    type V = SignaturePartsView;

    open spec fn view(&self) -> SignaturePartsView {
        SignaturePartsView { params: named_view(self.params@), output: self.output@ }
    }
}

/// The parts of a block of foreign declarations: the name of its ABI, where
/// one is written, and the text of each of its items.
#[derive(Debug, Clone, PartialEq, Eq)]
pub struct BlockParts {
    pub abi: Option<String>,
    pub items: Vec<String>,
}

pub struct BlockPartsView {
    pub abi: Option<Seq<char>>,
    pub items: Seq<Seq<char>>,
}

impl View for BlockParts {
    type V = BlockPartsView;

    open spec fn view(&self) -> BlockPartsView {
        BlockPartsView {
            abi: match self.abi {
                Some(a) => Some(a@),
                None => None,
            },
            items: strings_view(self.items@),
        }
    }
}

/// The parts of a foreign function: its name, the text of each parameter,
/// the text of its return type where one is written, and the text of each
/// of its attributes.
#[derive(Debug, Clone, PartialEq, Eq)]
pub struct FunctionParts {
    pub name: String,
    pub inputs: Vec<String>,
    pub output: Option<String>,
    pub attributes: Vec<String>,
}

pub struct FunctionPartsView {
    pub name: Seq<char>,
    pub inputs: Seq<Seq<char>>,
    pub output: Option<Seq<char>>,
    pub attributes: Seq<Seq<char>>,
}

impl View for FunctionParts {
    type V = FunctionPartsView;

    open spec fn view(&self) -> FunctionPartsView {
        FunctionPartsView {
            name: self.name@,
            inputs: strings_view(self.inputs@),
            output: match self.output {
                Some(t) => Some(t@),
                None => None,
            },
            attributes: strings_view(self.attributes@),
        }
    }
}

/// A name for what `syn::parse_file` makes of `text`: the text of each item
/// of the file, in order, or the message of the error.
pub uninterp spec fn dump_items(text: Seq<char>) -> Result<Seq<Seq<char>>, Seq<char>>;

/// A name for what `syn::parse_str::<syn::ItemStruct>` makes of the text of
/// an item: the parts of the record, where the item is one.
pub uninterp spec fn record_parts_of(item: Seq<char>) -> Option<RecordPartsView>;

/// A name for what `syn::parse_str::<syn::ItemType>` makes of the text of an
/// item: the parts of the type alias, where the item is one.
pub uninterp spec fn alias_parts_of(item: Seq<char>) -> Option<AliasPartsView>;

/// A name for what `syn::parse_str::<syn::TypePath>` makes of the text of a
/// type: the name of the last segment of the path and the text of its first
/// argument in angle brackets, where the type is such a path and the
/// argument is a type.
pub uninterp spec fn generic_argument_of(ty: Seq<char>) -> Option<(Seq<char>, Seq<char>)>;

/// A name for what `syn::parse_str::<syn::TypeBareFn>` makes of the text of
/// a type: the parts of the function-pointer type, where the type is one.
pub uninterp spec fn signature_parts_of(ty: Seq<char>) -> Option<SignaturePartsView>;

/// A name for what `syn::parse_str::<syn::ItemForeignMod>` makes of the text
/// of an item: the parts of the block, where the item is one.
pub uninterp spec fn block_parts_of(item: Seq<char>) -> Option<BlockPartsView>;

/// A name for what `syn::parse_str::<syn::ForeignItemFn>` makes of the text
/// of an item of a block: the parts of the function, where the item is one.
pub uninterp spec fn function_parts_of(item: Seq<char>) -> Option<FunctionPartsView>;

/// A name for what `syn::parse_str::<syn::MetaNameValue>` makes of the text
/// of an attribute: the text of the path and the value of the string, where
/// the attribute has the form `path = "text"`.
pub uninterp spec fn attribute_parts_of(meta: Seq<char>) -> Option<(Seq<char>, Seq<char>)>;

/// Calls `syn::parse_file`, which parses a whole source file or says why it
/// cannot, and writes each item out again as text
/// (`ToTokens::to_token_stream` and `to_string`). The contract names the
/// result.
#[verifier::external_body]
fn dump_item_texts(text: &str) -> (r: Result<Vec<String>, String>)
    ensures
        match r {
            Ok(items) => dump_items(text@) == Ok::<Seq<Seq<char>>, Seq<char>>(
                strings_view(items@),
            ),
            Err(e) => dump_items(text@) == Err::<Seq<Seq<char>>, Seq<char>>(e@),
        },
{
    match syn::parse_file(text) {
        Ok(file) => Ok(file.items.iter().map(|i| i.to_token_stream().to_string()).collect()),
        Err(e) => Err(e.to_string()),
    }
}

/// Calls `syn::parse_str::<syn::ItemStruct>` and reads the name, each
/// field's name and the text of its type, and the text of each attribute's
/// meta. The contract names the result.
#[verifier::external_body]
fn record_parts(item: &str) -> (r: Option<RecordParts>)
    ensures
        match r {
            Some(p) => record_parts_of(item@) == Some(p@),
            None => record_parts_of(item@) is None,
        },
{
    let s = syn::parse_str::<syn::ItemStruct>(item).ok()?;
    Some(
        RecordParts {
            name: s.ident.to_string(),
            fields: s.fields.iter().map(
                |f| (f.ident.as_ref().map(|i| i.to_string()), f.ty.to_token_stream().to_string()),
            ).collect(),
            attributes: s.attrs.iter().map(|a| a.meta.to_token_stream().to_string()).collect(),
        },
    )
}

/// Calls `syn::parse_str::<syn::ItemType>` and reads the name, the text of
/// the type, and the text of each attribute's meta. The contract names the
/// result.
#[verifier::external_body]
fn alias_parts(item: &str) -> (r: Option<AliasParts>)
    ensures
        match r {
            Some(p) => alias_parts_of(item@) == Some(p@),
            None => alias_parts_of(item@) is None,
        },
{
    let t = syn::parse_str::<syn::ItemType>(item).ok()?;
    Some(
        AliasParts {
            name: t.ident.to_string(),
            target: t.ty.to_token_stream().to_string(),
            attributes: t.attrs.iter().map(|a| a.meta.to_token_stream().to_string()).collect(),
        },
    )
}

/// Calls `syn::parse_str::<syn::TypePath>` and reads the name of the last
/// segment and the text of its first argument in angle brackets, where that
/// is a type. The contract names the result.
#[verifier::external_body]
fn generic_argument(ty: &str) -> (r: Option<(String, String)>)
    ensures
        match r {
            Some(p) => generic_argument_of(ty@) == Some((p.0@, p.1@)),
            None => generic_argument_of(ty@) is None,
        },
{
    let p = syn::parse_str::<syn::TypePath>(ty).ok()?;
    let segment = p.path.segments.last()?;
    let syn::PathArguments::AngleBracketed(a) = &segment.arguments else { return None };
    let syn::GenericArgument::Type(arg) = a.args.first()? else { return None };
    Some((segment.ident.to_string(), arg.to_token_stream().to_string()))
}

/// Calls `syn::parse_str::<syn::TypeBareFn>` and reads each parameter's
/// name, where it has one, and the text of its type, and the text of the
/// return type with its arrow. The contract names the result.
#[verifier::external_body]
fn signature_parts(ty: &str) -> (r: Option<SignatureParts>)
    ensures
        match r {
            Some(p) => signature_parts_of(ty@) == Some(p@),
            None => signature_parts_of(ty@) is None,
        },
{
    let f = syn::parse_str::<syn::TypeBareFn>(ty).ok()?;
    Some(
        SignatureParts {
            params: f.inputs.iter().map(
                |a| (a.name.as_ref().map(|n| n.0.to_string()), a.ty.to_token_stream().to_string()),
            ).collect(),
            output: f.output.to_token_stream().to_string(),
        },
    )
}

/// Calls `syn::parse_str::<syn::ItemForeignMod>` and reads the name of the
/// ABI, where one is written (`LitStr::value`), and the text of each item.
/// The contract names the result.
#[verifier::external_body]
fn block_parts(item: &str) -> (r: Option<BlockParts>)
    ensures
        match r {
            Some(p) => block_parts_of(item@) == Some(p@),
            None => block_parts_of(item@) is None,
        },
{
    let m = syn::parse_str::<syn::ItemForeignMod>(item).ok()?;
    Some(
        BlockParts {
            abi: m.abi.name.as_ref().map(|n| n.value()),
            items: m.items.iter().map(|i| i.to_token_stream().to_string()).collect(),
        },
    )
}

/// Calls `syn::parse_str::<syn::ForeignItemFn>` and reads the name, the text
/// of each parameter and of the return type, where one is written, and the
/// text of each attribute's meta. The contract names the result.
#[verifier::external_body]
fn function_parts(item: &str) -> (r: Option<FunctionParts>)
    ensures
        match r {
            Some(p) => function_parts_of(item@) == Some(p@),
            None => function_parts_of(item@) is None,
        },
{
    let f = syn::parse_str::<syn::ForeignItemFn>(item).ok()?;
    Some(
        FunctionParts {
            name: f.sig.ident.to_string(),
            inputs: f.sig.inputs.iter().map(|a| a.to_token_stream().to_string()).collect(),
            output: match &f.sig.output {
                syn::ReturnType::Default => None,
                syn::ReturnType::Type(_, ty) => Some(ty.to_token_stream().to_string()),
            },
            attributes: f.attrs.iter().map(|a| a.meta.to_token_stream().to_string()).collect(),
        },
    )
}

/// Calls `syn::parse_str::<syn::MetaNameValue>` and reads the text of the
/// path and, where the value is a string literal, its value
/// (`LitStr::value`). The contract names the result.
#[verifier::external_body]
fn attribute_parts(meta: &str) -> (r: Option<(String, String)>)
    ensures
        match r {
            Some(p) => attribute_parts_of(meta@) == Some((p.0@, p.1@)),
            None => attribute_parts_of(meta@) is None,
        },
{
    let nv = syn::parse_str::<syn::MetaNameValue>(meta).ok()?;
    let syn::Expr::Lit(l) = &nv.value else { return None };
    let syn::Lit::Str(s) = &l.lit else { return None };
    Some((nv.path.to_token_stream().to_string(), s.value()))
}

/// Whether the dump is Rust source.
pub open spec fn dump_parses(text: Seq<char>) -> bool {
    dump_items(text) is Ok
}

/// The text of a name that may be absent: empty where it is.
pub open spec fn optional_text(name: Option<String>) -> Seq<char> {
    match name {
        Some(s) => s@,
        None => Seq::<char>::empty(),
    }
}

/// A list of pairs whose names may be absent, as name and type pairs.
pub open spec fn named_view(v: Seq<(Option<String>, String)>) -> Seq<(Seq<char>, Seq<char>)> {
    v.map_values(|p: (Option<String>, String)| (optional_text(p.0), p.1@))
}

/// The documentation among the attributes: the value of each attribute named
/// `doc`, without the white space around it, in order.
pub open spec fn docs_of(attributes: Seq<(Seq<char>, Seq<char>)>) -> Seq<Seq<char>>
    decreases attributes.len(),
{
    if attributes.len() == 0 {
        Seq::<Seq<char>>::empty()
    } else if attributes.last().0 == "doc"@ {
        docs_of(attributes.drop_last()).push(trim(attributes.last().1))
    } else {
        docs_of(attributes.drop_last())
    }
}

/// The name and the type of a parameter written as `name : type`: what
/// stands before the first colon and what stands behind it, each without the
/// white space around it. `None` where there is no colon.
pub open spec fn argument_of(text: Seq<char>) -> Option<(Seq<char>, Seq<char>)> {
    let i = first_index_of(text, ':');
    if i < text.len() {
        Some((trim(text.take(i)), trim(text.skip(i + 1))))
    } else {
        None
    }
}

/// The parameters among `inputs` that are written with a colon, in order.
pub open spec fn arguments_of(inputs: Seq<Seq<char>>) -> Seq<(Seq<char>, Seq<char>)>
    decreases inputs.len(),
{
    if inputs.len() == 0 {
        Seq::<(Seq<char>, Seq<char>)>::empty()
    } else {
        match argument_of(inputs.last()) {
            Some(a) => arguments_of(inputs.drop_last()).push(a),
            None => arguments_of(inputs.drop_last()),
        }
    }
}

/// The return type of a function pointer, from the text behind its
/// parameters: the text without the white space around it and without the
/// arrow at its start; `()` where nothing is left.
pub open spec fn callback_return(text: Seq<char>) -> Seq<char> {
    let t = trim(text);
    let u = if starts_with(t, "-> "@) {
        t.skip("-> "@.len() as int)
    } else {
        t
    };
    if u.len() == 0 {
        "()"@
    } else {
        u
    }
}

/// The return type of a function: `()` where none is written.
pub open spec fn function_return(output: Option<Seq<char>>) -> Seq<char> {
    match output {
        Some(t) => t,
        None => "()"@,
    }
}

/// The declaration that a record stands for.
pub open spec fn record_view(
    name: Seq<char>,
    fields: Seq<(Seq<char>, Seq<char>)>,
    attributes: Seq<(Seq<char>, Seq<char>)>,
) -> DeclarationView {
    DeclarationView::Record { name, fields, docs: docs_of(attributes) }
}

/// The declaration that a type alias stands for. It carries a signature
/// where the alias is an `Option` of a function pointer.
pub open spec fn alias_view(
    name: Seq<char>,
    text: Seq<char>,
    segment: Option<Seq<char>>,
    signature: Option<(Seq<(Seq<char>, Seq<char>)>, Seq<char>)>,
    attributes: Seq<(Seq<char>, Seq<char>)>,
) -> DeclarationView {
    DeclarationView::Alias {
        name,
        text,
        callback: match signature {
            Some((params, output)) => if segment == Some("Option"@) {
                Some(CallbackView { params, return_type: callback_return(output) })
            } else {
                None
            },
            None => None,
        },
        docs: docs_of(attributes),
    }
}

/// The declaration that a function of a foreign block stands for.
pub open spec fn function_view(
    name: Seq<char>,
    inputs: Seq<Seq<char>>,
    output: Option<Seq<char>>,
    attributes: Seq<(Seq<char>, Seq<char>)>,
) -> DeclarationView {
    DeclarationView::Function {
        name,
        arguments: arguments_of(inputs),
        return_type: function_return(output),
        docs: docs_of(attributes),
    }
}

/// The documentation among the attributes, each given as the text of its
/// path and its value.
pub fn doc_comments(attributes: &Vec<(String, String)>) -> (docs: Vec<String>)
    ensures
        strings_view(docs@) == docs_of(pairs_view(attributes@)),
{
    let ghost all = pairs_view(attributes@);
    let mut docs: Vec<String> = Vec::new();
    let mut i: usize = 0;
    assert(all.take(0) =~= Seq::<(Seq<char>, Seq<char>)>::empty());
    assert(strings_view(docs@) =~= Seq::<Seq<char>>::empty());
    while i < attributes.len()
        invariant
            i <= attributes.len(),
            all == pairs_view(attributes@),
            strings_view(docs@) == docs_of(all.take(i as int)),
        decreases attributes.len() - i,
    {
        proof {
            let t = all.take(i + 1);
            assert(t.drop_last() =~= all.take(i as int));
            assert(t.last() == (attributes@[i as int].0@, attributes@[i as int].1@));
        }
        if str_eq(attributes[i].0.as_str(), "doc") {
            let d = str_trim(attributes[i].1.as_str());
            proof {
                lemma_strings_push(docs@, d);
            }
            docs.push(d);
        }
        i += 1;
    }
    assert(all.take(attributes.len() as int) =~= all);
    docs
}

/// The name and the type of a parameter written as `name : type`.
pub fn split_argument(text: &str) -> (r: Option<(String, String)>)
    ensures
        match r {
            Some(p) => argument_of(text@) == Some((p.0@, p.1@)),
            None => argument_of(text@) is None,
        },
{
    let x = chars_of(text);
    match vec_first_index_of(&x, ':') {
        Some(i) => {
            let name = text_between(&x, 0, i);
            let c_type = text_between(&x, i + 1, x.len());
            assert(x@.subrange(0, i as int) =~= x@.take(i as int));
            assert(x@.subrange(i + 1, x.len() as int) =~= x@.skip(i + 1));
            Some((str_trim(name.as_str()), str_trim(c_type.as_str())))
        },
        None => None,
    }
}

/// The parameters among `inputs` that are written with a colon.
pub fn function_arguments(inputs: &Vec<String>) -> (r: Vec<(String, String)>)
    ensures
        pairs_view(r@) == arguments_of(strings_view(inputs@)),
{
    let ghost all = strings_view(inputs@);
    let mut r: Vec<(String, String)> = Vec::new();
    let mut i: usize = 0;
    assert(all.take(0) =~= Seq::<Seq<char>>::empty());
    assert(pairs_view(r@) =~= Seq::<(Seq<char>, Seq<char>)>::empty());
    while i < inputs.len()
        invariant
            i <= inputs.len(),
            all == strings_view(inputs@),
            pairs_view(r@) == arguments_of(all.take(i as int)),
        decreases inputs.len() - i,
    {
        proof {
            let t = all.take(i + 1);
            assert(t.drop_last() =~= all.take(i as int));
            assert(t.last() == inputs@[i as int]@);
        }
        match split_argument(inputs[i].as_str()) {
            Some(p) => {
                proof {
                    lemma_pairs_push(r@, p);
                }
                r.push(p);
            },
            None => {},
        }
        i += 1;
    }
    assert(all.take(inputs.len() as int) =~= all);
    r
}

/// The return type of a function pointer, from the text behind its
/// parameters.
pub fn callback_return_type(text: &str) -> (r: String)
    ensures
        r@ == callback_return(text@),
{
    let t = str_trim(text);
    let u = if str_starts_with(t.as_str(), "-> ") {
        let x = chars_of(t.as_str());
        let n = chars_of("-> ").len();
        assert(x@.subrange(n as int, x.len() as int) =~= x@.skip(n as int));
        text_between(&x, n, x.len())
    } else {
        t
    };
    if chars_of(u.as_str()).len() == 0 {
        String::from_str("()")
    } else {
        u
    }
}

fn named_pairs(v: Vec<(Option<String>, String)>) -> (r: Vec<(String, String)>)
    ensures
        pairs_view(r@) == named_view(v@),
{
    let mut r: Vec<(String, String)> = Vec::new();
    let mut i: usize = 0;
    assert(pairs_view(r@) =~= named_view(v@).take(0));
    while i < v.len()
        invariant
            i <= v.len(),
            pairs_view(r@) == named_view(v@).take(i as int),
        decreases v.len() - i,
    {
        let name = match &v[i].0 {
            Some(s) => s.clone(),
            None => String::new(),
        };
        let p = (name, v[i].1.clone());
        proof {
            lemma_pairs_push(r@, p);
            assert(named_view(v@).take(i as int).push((p.0@, p.1@)) =~= named_view(v@).take(
                i + 1,
            ));
        }
        r.push(p);
        i += 1;
    }
    assert(named_view(v@).take(v.len() as int) =~= named_view(v@));
    r
}

/// The declaration that a record stands for: its name, its fields, and the
/// documentation among its attributes.
pub fn record_declaration(
    name: String,
    fields: Vec<(Option<String>, String)>,
    attributes: &Vec<(String, String)>,
) -> (d: Declaration)
    ensures
        d@ == record_view(name@, named_view(fields@), pairs_view(attributes@)),
{
    Declaration::Record { name, fields: named_pairs(fields), docs: doc_comments(attributes) }
}

/// The declaration that a type alias stands for. `segment` is the name of
/// the last segment of the alias's target and `signature` the parameters and
/// the return text of the function pointer in it, where there are such.
pub fn alias_declaration(
    name: String,
    text: String,
    segment: Option<String>,
    signature: Option<SignatureParts>,
    attributes: &Vec<(String, String)>,
) -> (d: Declaration)
    ensures
        d@ == alias_view(
            name@,
            text@,
            match segment {
                Some(s) => Some(s@),
                None => None,
            },
            match signature {
                Some(s) => Some((s@.params, s@.output)),
                None => None,
            },
            pairs_view(attributes@),
        ),
{
    let is_option = match &segment {
        Some(s) => str_eq(s.as_str(), "Option"),
        None => false,
    };
    let callback = match signature {
        Some(s) => {
            if is_option {
                let return_type = callback_return_type(s.output.as_str());
                Some(Callback { params: named_pairs(s.params), return_type })
            } else {
                None
            }
        },
        None => None,
    };
    Declaration::Alias { name, text, callback, docs: doc_comments(attributes) }
}

/// The declaration that a function of a foreign block stands for.
pub fn function_declaration(
    name: String,
    inputs: &Vec<String>,
    output: Option<String>,
    attributes: &Vec<(String, String)>,
) -> (d: Declaration)
    ensures
        d@ == function_view(
            name@,
            strings_view(inputs@),
            match output {
                Some(s) => Some(s@),
                None => None,
            },
            pairs_view(attributes@),
        ),
{
    let return_type = match output {
        Some(t) => t,
        None => String::from_str("()"),
    };
    Declaration::Function {
        name,
        arguments: function_arguments(inputs),
        return_type,
        docs: doc_comments(attributes),
    }
}

/// The attributes among `metas` that have the form `path = "text"`, each as
/// the text of its path and its value, in order.
pub open spec fn attributes_of(metas: Seq<Seq<char>>) -> Seq<(Seq<char>, Seq<char>)>
    decreases metas.len(),
{
    if metas.len() == 0 {
        Seq::<(Seq<char>, Seq<char>)>::empty()
    } else {
        match attribute_parts_of(metas.last()) {
            Some(a) => attributes_of(metas.drop_last()).push(a),
            None => attributes_of(metas.drop_last()),
        }
    }
}

/// The declarations of the functions among the items of a block, in order.
pub open spec fn functions_of(items: Seq<Seq<char>>) -> Seq<DeclarationView>
    decreases items.len(),
{
    if items.len() == 0 {
        Seq::<DeclarationView>::empty()
    } else {
        match function_parts_of(items.last()) {
            Some(f) => functions_of(items.drop_last()).push(
                function_view(f.name, f.inputs, f.output, attributes_of(f.attributes)),
            ),
            None => functions_of(items.drop_last()),
        }
    }
}

/// The name of the last segment of the type that an alias stands for, where
/// the type is a path with an argument.
pub open spec fn alias_segment(target: Seq<char>) -> Option<Seq<char>> {
    match generic_argument_of(target) {
        Some((segment, argument)) => Some(segment),
        None => None,
    }
}

/// The signature in the type that an alias stands for: that of the path's
/// argument, where it is a function pointer.
pub open spec fn alias_signature(target: Seq<char>) -> Option<
    (Seq<(Seq<char>, Seq<char>)>, Seq<char>),
> {
    match generic_argument_of(target) {
        Some((segment, argument)) => match signature_parts_of(argument) {
            Some(s) => Some((s.params, s.output)),
            None => None,
        },
        None => None,
    }
}

/// The declarations that one item of a dump stands for: a record gives one,
/// a type alias gives one, a block of foreign declarations for the C ABI
/// gives one for each of its functions, and anything else gives none.
pub open spec fn item_declarations(item: Seq<char>) -> Seq<DeclarationView> {
    match record_parts_of(item) {
        Some(p) => seq![record_view(p.name, p.fields, attributes_of(p.attributes))],
        None => match alias_parts_of(item) {
            Some(a) => seq![
                alias_view(
                    a.name,
                    item,
                    alias_segment(a.target),
                    alias_signature(a.target),
                    attributes_of(a.attributes),
                ),
            ],
            None => match block_parts_of(item) {
                Some(b) => if b.abi == Some("C"@) {
                    functions_of(b.items)
                } else {
                    Seq::<DeclarationView>::empty()
                },
                None => Seq::<DeclarationView>::empty(),
            },
        },
    }
}

/// The declarations that the items of a dump stand for, in the dump's order.
pub open spec fn declarations_of(items: Seq<Seq<char>>) -> Seq<DeclarationView>
    decreases items.len(),
{
    if items.len() == 0 {
        Seq::<DeclarationView>::empty()
    } else {
        declarations_of(items.drop_last()) + item_declarations(items.last())
    }
}

/// The attributes among `metas` that have the form `path = "text"`, each as
/// the text of its path and its value.
fn attribute_texts(metas: &Vec<String>) -> (r: Vec<(String, String)>)
    ensures
        pairs_view(r@) == attributes_of(strings_view(metas@)),
{
    let ghost all = strings_view(metas@);
    let mut r: Vec<(String, String)> = Vec::new();
    let mut i: usize = 0;
    assert(all.take(0) =~= Seq::<Seq<char>>::empty());
    assert(pairs_view(r@) =~= Seq::<(Seq<char>, Seq<char>)>::empty());
    while i < metas.len()
        invariant
            i <= metas.len(),
            all == strings_view(metas@),
            pairs_view(r@) == attributes_of(all.take(i as int)),
        decreases metas.len() - i,
    {
        proof {
            let t = all.take(i + 1);
            assert(t.drop_last() =~= all.take(i as int));
            assert(t.last() == metas@[i as int]@);
        }
        match attribute_parts(metas[i].as_str()) {
            Some(p) => {
                proof {
                    lemma_pairs_push(r@, p);
                }
                r.push(p);
            },
            None => {},
        }
        i += 1;
    }
    assert(all.take(metas.len() as int) =~= all);
    r
}

/// The declarations of the functions among the items of a block.
fn foreign_functions(items: &Vec<String>) -> (r: Vec<Declaration>)
    ensures
        declarations_view(r@) == functions_of(strings_view(items@)),
{
    let ghost all = strings_view(items@);
    let mut r: Vec<Declaration> = Vec::new();
    let mut i: usize = 0;
    assert(all.take(0) =~= Seq::<Seq<char>>::empty());
    assert(declarations_view(r@) =~= Seq::<DeclarationView>::empty());
    while i < items.len()
        invariant
            i <= items.len(),
            all == strings_view(items@),
            declarations_view(r@) == functions_of(all.take(i as int)),
        decreases items.len() - i,
    {
        proof {
            let t = all.take(i + 1);
            assert(t.drop_last() =~= all.take(i as int));
            assert(t.last() == items@[i as int]@);
        }
        match function_parts(items[i].as_str()) {
            Some(f) => {
                let texts = attribute_texts(&f.attributes);
                let d = function_declaration(f.name, &f.inputs, f.output, &texts);
                let ghost before = r@;
                r.push(d);
                assert(declarations_view(r@) =~= declarations_view(before).push(d@));
            },
            None => {},
        }
        i += 1;
    }
    assert(all.take(items.len() as int) =~= all);
    r
}

/// The declarations that one item of a dump stands for.
pub fn item_declarations_of(item: &str) -> (r: Vec<Declaration>)
    ensures
        declarations_view(r@) == item_declarations(item@),
{
    match record_parts(item) {
        Some(p) => {
            let texts = attribute_texts(&p.attributes);
            let d = record_declaration(p.name, p.fields, &texts);
            let mut r: Vec<Declaration> = Vec::new();
            r.push(d);
            assert(declarations_view(r@) =~= seq![d@]);
            r
        },
        None => match alias_parts(item) {
            Some(a) => {
                let texts = attribute_texts(&a.attributes);
                let (segment, signature) = match generic_argument(a.target.as_str()) {
                    Some((segment, argument)) => (
                        Some(segment),
                        signature_parts(argument.as_str()),
                    ),
                    None => (None, None),
                };
                let d = alias_declaration(
                    a.name,
                    String::from_str(item),
                    segment,
                    signature,
                    &texts,
                );
                let mut r: Vec<Declaration> = Vec::new();
                r.push(d);
                assert(declarations_view(r@) =~= seq![d@]);
                r
            },
            None => match block_parts(item) {
                Some(b) => {
                    let is_c = match &b.abi {
                        Some(a) => str_eq(a.as_str(), "C"),
                        None => false,
                    };
                    if is_c {
                        foreign_functions(&b.items)
                    } else {
                        let r: Vec<Declaration> = Vec::new();
                        assert(declarations_view(r@) =~= Seq::<DeclarationView>::empty());
                        r
                    }
                },
                None => {
                    let r: Vec<Declaration> = Vec::new();
                    assert(declarations_view(r@) =~= Seq::<DeclarationView>::empty());
                    r
                },
            },
        },
    }
}

/// What went wrong in reading a dump: the dump is not Rust source.
#[derive(Debug, Clone, PartialEq, Eq)]
pub struct ExtractionError {
    pub message: String,
}

/// The declarations of a dump, in the dump's order: its records, its type
/// aliases, and the functions of its blocks for the C ABI. A dump that is
/// not Rust source is an error, and then nothing of it is read.
pub fn read_dump(text: &str) -> (r: Result<Vec<Declaration>, ExtractionError>)
    ensures
        r is Ok <==> dump_parses(text@),
        match r {
            Ok(decls) => dump_items(text@) is Ok && declarations_view(decls@) == declarations_of(
                dump_items(text@)->Ok_0,
            ),
            Err(e) => dump_items(text@) == Err::<Seq<Seq<char>>, Seq<char>>(e.message@),
        },
{
    let items = match dump_item_texts(text) {
        Ok(items) => items,
        Err(message) => {
            return Err(ExtractionError { message });
        },
    };
    let ghost all = strings_view(items@);
    let mut out: Vec<Declaration> = Vec::new();
    let mut i: usize = 0;
    assert(all.take(0) =~= Seq::<Seq<char>>::empty());
    assert(declarations_view(out@) =~= Seq::<DeclarationView>::empty());
    while i < items.len()
        invariant
            i <= items.len(),
            all == strings_view(items@),
            declarations_view(out@) == declarations_of(all.take(i as int)),
        decreases items.len() - i,
    {
        proof {
            let t = all.take(i + 1);
            assert(t.drop_last() =~= all.take(i as int));
            assert(t.last() == items@[i as int]@);
        }
        let mut found = item_declarations_of(items[i].as_str());
        let ghost before = out@;
        let ghost more = found@;
        out.append(&mut found);
        assert(declarations_view(out@) =~= declarations_view(before) + declarations_view(more));
        i += 1;
    }
    assert(all.take(items.len() as int) =~= all);
    Ok(out)
}

} // verus!
