use vstd::prelude::*;

verus! {

/// The kind of an extracted declaration.
#[derive(Debug, Clone, Copy, PartialEq, Eq, Structural)]
pub enum Type {
    Function,
    Module,
    Struct,
    Trait,
    OuterComment,
}

/// One method or free function harvested from the source: its name, the doc
/// text attached to it, its rebuilt signature text, and whether it was found
/// inside a trait or extension body rather than at the top level.
#[derive(Debug, Clone, PartialEq, Eq)]
pub struct Function {
    pub name: String,
    pub doc: String,
    pub signature: String,
    pub is_method: bool,
}

/// One extension block matched to a declared type: the rebuilt header text
/// and the methods harvested from its body.
#[derive(Debug, Clone, PartialEq, Eq)]
pub struct Implementation {
    pub signature: String,
    pub functions: Vec<Function>,
}

/// The kind-specific payload of a declaration.
#[derive(Debug, PartialEq, Eq)]
pub enum Info {
    Function {
        signature: String,
    },
    Module {
        content: Vec<Output>,
    },
    Struct {
        signature: String,
        additional_doc: String,
        implementations: Vec<Implementation>,
    },
    Trait {
        signature: String,
        additional_doc: String,
        required_methods: Vec<Function>,
        provided_methods: Vec<Function>,
        implementations: Vec<Implementation>,
    },
    Blanc,
}

/// One extracted declaration: its kind, name, associated doc text, and the
/// kind-specific payload. Module payloads hold child declarations, so a
/// sequence of these forms the document tree of a source unit.
#[derive(Debug, PartialEq, Eq)]
pub struct Output {
    pub kind: Type,
    pub name: String,
    pub doc: String,
    pub information: Info,
}

/// Mathematical model of a `Function`.
pub struct MethodV {
    pub name: Seq<char>,
    pub doc: Seq<char>,
    pub signature: Seq<char>,
    pub is_method: bool,
}

/// Mathematical model of an `Implementation`.
pub struct ImplV {
    pub signature: Seq<char>,
    pub functions: Seq<MethodV>,
}

/// Mathematical model of an `Info`.
pub enum InfoV {
    Function {
        signature: Seq<char>,
    },
    Module {
        content: Seq<OutputV>,
    },
    Struct {
        signature: Seq<char>,
        additional_doc: Seq<char>,
        implementations: Seq<ImplV>,
    },
    Trait {
        signature: Seq<char>,
        additional_doc: Seq<char>,
        required_methods: Seq<MethodV>,
        provided_methods: Seq<MethodV>,
        implementations: Seq<ImplV>,
    },
    Blanc,
}

/// Mathematical model of an `Output`.
pub struct OutputV {
    pub kind: Type,
    pub name: Seq<char>,
    pub doc: Seq<char>,
    pub information: InfoV,
}

pub open spec fn view_function(f: Function) -> MethodV {
    MethodV { name: f.name@, doc: f.doc@, signature: f.signature@, is_method: f.is_method }
}

pub open spec fn view_functions(s: Seq<Function>) -> Seq<MethodV>
    decreases s.len(),
{
    if s.len() == 0 {
        Seq::empty()
    } else {
        seq![view_function(s[0])] + view_functions(s.drop_first())
    }
}

/// The model of a sequence of functions is the pointwise model.
pub proof fn lemma_view_functions_index(s: Seq<Function>, j: int)
    ensures
        view_functions(s).len() == s.len(),
        0 <= j < s.len() ==> view_functions(s)[j] == view_function(s[j]),
    decreases s.len(),
{
    if s.len() > 0 {
        lemma_view_functions_index(s.drop_first(), j - 1);
    }
}

pub open spec fn view_impl(im: Implementation) -> ImplV {
    ImplV { signature: im.signature@, functions: view_functions(im.functions@) }
}

pub open spec fn view_impls(s: Seq<Implementation>) -> Seq<ImplV>
    decreases s.len(),
{
    if s.len() == 0 {
        Seq::empty()
    } else {
        seq![view_impl(s[0])] + view_impls(s.drop_first())
    }
}

/// The model of a sequence of extensions is the pointwise model.
pub proof fn lemma_view_impls_index(s: Seq<Implementation>, j: int)
    ensures
        view_impls(s).len() == s.len(),
        0 <= j < s.len() ==> view_impls(s)[j] == view_impl(s[j]),
    decreases s.len(),
{
    if s.len() > 0 {
        lemma_view_impls_index(s.drop_first(), j - 1);
    }
}

pub open spec fn view_info(inf: Info) -> InfoV
    decreases inf,
{
    match inf {
        Info::Function { signature } => InfoV::Function { signature: signature@ },
        Info::Module { content } => InfoV::Module { content: view_outputs(content@) },
        Info::Struct { signature, additional_doc, implementations } => InfoV::Struct {
            signature: signature@,
            additional_doc: additional_doc@,
            implementations: view_impls(implementations@),
        },
        Info::Trait {
            signature,
            additional_doc,
            required_methods,
            provided_methods,
            implementations,
        } => InfoV::Trait {
            signature: signature@,
            additional_doc: additional_doc@,
            required_methods: view_functions(required_methods@),
            provided_methods: view_functions(provided_methods@),
            implementations: view_impls(implementations@),
        },
        Info::Blanc => InfoV::Blanc,
    }
}

pub open spec fn view_output(o: Output) -> OutputV
    decreases o,
{
    OutputV { kind: o.kind, name: o.name@, doc: o.doc@, information: view_info(o.information) }
}

pub open spec fn view_outputs(s: Seq<Output>) -> Seq<OutputV>
    decreases s,
{
    if s.len() == 0 {
        Seq::empty()
    } else {
        seq![view_output(s[0])] + view_outputs(s.drop_first())
    }
}

/// The model of a sequence of declarations is the pointwise model.
pub proof fn lemma_view_outputs_index(s: Seq<Output>, j: int)
    ensures
        view_outputs(s).len() == s.len(),
        0 <= j < s.len() ==> view_outputs(s)[j] == view_output(s[j]),
    decreases s.len(),
{
    if s.len() > 0 {
        lemma_view_outputs_index(s.drop_first(), j - 1);
    }
}

/// The name of a declaration kind, as rendered text.
pub open spec fn spec_type_name(t: Type) -> Seq<char> {
    match t {
        Type::Function => "Function"@,
        Type::Module => "Module"@,
        Type::Struct => "Struct"@,
        Type::Trait => "Trait"@,
        Type::OuterComment => "OuterComment"@,
    }
}

impl Type {
    /// The name of this declaration kind, as rendered text.
    pub fn name_text(&self) -> (r: &str)
        ensures
            r@ == spec_type_name(*self),
    {
        match self {
            Type::Function => "Function",
            Type::Module => "Module",
            Type::Struct => "Struct",
            Type::Trait => "Trait",
            Type::OuterComment => "OuterComment",
        }
    }
}

/// The rendered summary line of a declaration: its kind, name and doc.
pub open spec fn spec_describe(o: OutputV) -> Seq<char> {
    "Type: "@ + spec_type_name(o.kind) + "\n"@ + "Name: "@ + o.name + "\n"@ + "Doc: "@ + o.doc
        + "\n"@
}

impl Output {
    /// A textual summary of this declaration: its kind, name and doc, one
    /// line each.
    pub fn describe(&self) -> (r: String)
        ensures
            r@ == spec_describe(view_output(*self)),
    {
        let mut res = String::from_str("Type: ");
        res.append(self.kind.name_text());
        res.append("\n");
        res.append("Name: ");
        res.append(self.name.as_str());
        res.append("\n");
        res.append("Doc: ");
        res.append(self.doc.as_str());
        res.append("\n");
        res
    }
}

/// A copy of a method, with the same model.
pub fn clone_function(f: &Function) -> (r: Function)
    ensures
        view_function(r) == view_function(*f),
{
    Function {
        name: f.name.clone(),
        doc: f.doc.clone(),
        signature: f.signature.clone(),
        is_method: f.is_method,
    }
}

fn clone_functions_from(v: &Vec<Function>, k: usize) -> (r: Vec<Function>)
    requires
        k <= v@.len(),
    ensures
        view_functions(r@) == view_functions(v@.subrange(k as int, v@.len() as int)),
    decreases v@.len() - k,
{
    if k >= v.len() {
        let r = Vec::new();
        proof {
            assert(v@.subrange(k as int, v@.len() as int) =~= Seq::<Function>::empty());
        }
        r
    } else {
        let mut rest = clone_functions_from(v, k + 1);
        let ghost rest0 = rest@;
        let c = clone_function(&v[k]);
        rest.insert(0, c);
        proof {
            let sub = v@.subrange(k as int, v@.len() as int);
            assert(rest@ =~= seq![c] + rest0);
            assert((seq![c] + rest0).drop_first() =~= rest0);
            assert(sub.drop_first() =~= v@.subrange(k as int + 1, v@.len() as int));
        }
        rest
    }
}

/// A copy of a method list, with the same model.
pub fn clone_functions(v: &Vec<Function>) -> (r: Vec<Function>)
    ensures
        view_functions(r@) == view_functions(v@),
{
    let r = clone_functions_from(v, 0);
    proof {
        assert(v@.subrange(0, v@.len() as int) =~= v@);
    }
    r
}

/// A copy of an extension, with the same model.
pub fn clone_implementation(im: &Implementation) -> (r: Implementation)
    ensures
        view_impl(r) == view_impl(*im),
{
    Implementation { signature: im.signature.clone(), functions: clone_functions(&im.functions) }
}

fn clone_impls_from(v: &Vec<Implementation>, k: usize) -> (r: Vec<Implementation>)
    requires
        k <= v@.len(),
    ensures
        view_impls(r@) == view_impls(v@.subrange(k as int, v@.len() as int)),
    decreases v@.len() - k,
{
    if k >= v.len() {
        let r = Vec::new();
        proof {
            assert(v@.subrange(k as int, v@.len() as int) =~= Seq::<Implementation>::empty());
        }
        r
    } else {
        let mut rest = clone_impls_from(v, k + 1);
        let ghost rest0 = rest@;
        let c = clone_implementation(&v[k]);
        rest.insert(0, c);
        proof {
            let sub = v@.subrange(k as int, v@.len() as int);
            assert(rest@ =~= seq![c] + rest0);
            assert((seq![c] + rest0).drop_first() =~= rest0);
            assert(sub.drop_first() =~= v@.subrange(k as int + 1, v@.len() as int));
        }
        rest
    }
}

/// A copy of an extension list, with the same model.
pub fn clone_implementations(v: &Vec<Implementation>) -> (r: Vec<Implementation>)
    ensures
        view_impls(r@) == view_impls(v@),
{
    let r = clone_impls_from(v, 0);
    proof {
        assert(v@.subrange(0, v@.len() as int) =~= v@);
    }
    r
}

/// A copy of a declaration payload, with the same model.
pub fn clone_info(inf: &Info) -> (r: Info)
    ensures
        view_info(r) == view_info(*inf),
    decreases *inf, 0int, 0int,
{
    match inf {
        Info::Function { signature } => Info::Function { signature: signature.clone() },
        Info::Module { content } => Info::Module { content: clone_outputs(content) },
        Info::Struct { signature, additional_doc, implementations } => Info::Struct {
            signature: signature.clone(),
            additional_doc: additional_doc.clone(),
            implementations: clone_implementations(implementations),
        },
        Info::Trait {
            signature,
            additional_doc,
            required_methods,
            provided_methods,
            implementations,
        } => Info::Trait {
            signature: signature.clone(),
            additional_doc: additional_doc.clone(),
            required_methods: clone_functions(required_methods),
            provided_methods: clone_functions(provided_methods),
            implementations: clone_implementations(implementations),
        },
        Info::Blanc => Info::Blanc,
    }
}

/// A copy of a declaration, with the same model.
pub fn clone_output(o: &Output) -> (r: Output)
    ensures
        view_output(r) == view_output(*o),
    decreases *o, 0int, 0int,
{
    Output {
        kind: o.kind,
        name: o.name.clone(),
        doc: o.doc.clone(),
        information: clone_info(&o.information),
    }
}

fn clone_outputs_from(v: &Vec<Output>, k: usize) -> (r: Vec<Output>)
    requires
        k <= v@.len(),
    ensures
        view_outputs(r@) == view_outputs(v@.subrange(k as int, v@.len() as int)),
    decreases v@, v@.len() - k, 0int,
{
    if k >= v.len() {
        let r = Vec::new();
        proof {
            assert(v@.subrange(k as int, v@.len() as int) =~= Seq::<Output>::empty());
        }
        r
    } else {
        let mut rest = clone_outputs_from(v, k + 1);
        let ghost rest0 = rest@;
        let c = clone_output(&v[k]);
        rest.insert(0, c);
        proof {
            let sub = v@.subrange(k as int, v@.len() as int);
            assert(rest@ =~= seq![c] + rest0);
            assert((seq![c] + rest0).drop_first() =~= rest0);
            assert(sub.drop_first() =~= v@.subrange(k as int + 1, v@.len() as int));
        }
        rest
    }
}

/// A copy of a declaration list, with the same model.
pub fn clone_outputs(v: &Vec<Output>) -> (r: Vec<Output>)
    ensures
        view_outputs(r@) == view_outputs(v@),
    decreases v@, v@.len() + 1, 0int,
{
    let r = clone_outputs_from(v, 0);
    proof {
        assert(v@.subrange(0, v@.len() as int) =~= v@);
    }
    r
}

impl Info {
    /// The rebuilt signature text of a function, struct or trait payload;
    /// other payloads have none.
    pub fn get_signature(&self) -> (r: Option<String>)
        ensures
            match r {
                Some(s) => (view_info(*self) matches InfoV::Function { signature } && s@
                    == signature) || (view_info(*self) matches InfoV::Struct { signature, .. }
                    && s@ == signature) || (view_info(*self) matches InfoV::Trait {
                    signature,
                    ..
                } && s@ == signature),
                None => view_info(*self) is Module || view_info(*self) is Blanc,
            },
    {
        match self {
            Info::Function { signature } => Some(signature.clone()),
            Info::Struct { signature, .. } => Some(signature.clone()),
            Info::Trait { signature, .. } => Some(signature.clone()),
            _ => None,
        }
    }

    /// The extensions attached to a struct or trait payload; other payloads
    /// have none.
    pub fn get_implementations(&self) -> (r: Option<Vec<Implementation>>)
        ensures
            match r {
                Some(v) => (view_info(*self) matches InfoV::Struct { implementations, .. }
                    && view_impls(v@) == implementations) || (view_info(*self)
                    matches InfoV::Trait { implementations, .. } && view_impls(v@)
                    == implementations),
                None => view_info(*self) is Function || view_info(*self) is Module || view_info(
                    *self,
                ) is Blanc,
            },
    {
        match self {
            Info::Struct { implementations, .. } => Some(clone_implementations(implementations)),
            Info::Trait { implementations, .. } => Some(clone_implementations(implementations)),
            _ => None,
        }
    }

    /// The remarks attached to a struct or trait payload; other payloads
    /// have none.
    pub fn get_additional_doc(&self) -> (r: Option<String>)
        ensures
            match r {
                Some(s) => (view_info(*self) matches InfoV::Struct { additional_doc, .. } && s@
                    == additional_doc) || (view_info(*self) matches InfoV::Trait {
                    additional_doc,
                    ..
                } && s@ == additional_doc),
                None => view_info(*self) is Function || view_info(*self) is Module || view_info(
                    *self,
                ) is Blanc,
            },
    {
        match self {
            Info::Struct { additional_doc, .. } => Some(additional_doc.clone()),
            Info::Trait { additional_doc, .. } => Some(additional_doc.clone()),
            _ => None,
        }
    }

    /// The required methods of a trait payload; other payloads have none.
    pub fn get_required_methods(&self) -> (r: Option<Vec<Function>>)
        ensures
            match r {
                Some(v) => view_info(*self) matches InfoV::Trait { required_methods, .. }
                    && view_functions(v@) == required_methods,
                None => !(view_info(*self) is Trait),
            },
    {
        match self {
            Info::Trait { required_methods, .. } => Some(clone_functions(required_methods)),
            _ => None,
        }
    }

    /// The provided methods of a trait payload; other payloads have none.
    pub fn get_provided_methods(&self) -> (r: Option<Vec<Function>>)
        ensures
            match r {
                Some(v) => view_info(*self) matches InfoV::Trait { provided_methods, .. }
                    && view_functions(v@) == provided_methods,
                None => !(view_info(*self) is Trait),
            },
    {
        match self {
            Info::Trait { provided_methods, .. } => Some(clone_functions(provided_methods)),
            _ => None,
        }
    }

    /// The child declarations of a module payload; other payloads have none.
    pub fn get_content(&self) -> (r: Option<Vec<Output>>)
        ensures
            match r {
                Some(v) => view_info(*self) matches InfoV::Module { content } && view_outputs(v@)
                    == content,
                None => !(view_info(*self) is Module),
            },
    {
        match self {
            Info::Module { content } => Some(clone_outputs(content)),
            _ => None,
        }
    }
}

impl View for Function {
    type V = MethodV;

    open spec fn view(&self) -> MethodV {
        view_function(*self)
    }
}

impl View for Implementation {
    type V = ImplV;

    open spec fn view(&self) -> ImplV {
        view_impl(*self)
    }
}

impl View for Info {
    type V = InfoV;

    open spec fn view(&self) -> InfoV {
        view_info(*self)
    }
}

impl View for Output {
    type V = OutputV;

    open spec fn view(&self) -> OutputV {
        view_output(*self)
    }
}

/// The error reported when extraction of a source unit fails.
#[derive(Debug, Clone, PartialEq, Eq)]
pub enum DocError {
    /// A source unit needed for a file-backed module was not available;
    /// carries the name of the missing unit.
    SourceUnreadable(String),
    /// The token sequence ended inside a construct, or a brace-delimited
    /// block never closed: scanning further would read past the end.
    MalformedInput,
    /// Module nesting exceeded the extractor's safety limit.
    DepthExceeded,
}

/// Mathematical model of a `DocError`.
pub enum DocErrorV {
    SourceUnreadable(Seq<char>),
    MalformedInput,
    DepthExceeded,
}

pub open spec fn view_err(e: DocError) -> DocErrorV {
    match e {
        DocError::SourceUnreadable(s) => DocErrorV::SourceUnreadable(s@),
        DocError::MalformedInput => DocErrorV::MalformedInput,
        DocError::DepthExceeded => DocErrorV::DepthExceeded,
    }
}

impl View for DocError {
    type V = DocErrorV;

    open spec fn view(&self) -> DocErrorV {
        view_err(*self)
    }
}

} // verus!
