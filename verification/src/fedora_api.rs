//! Recognising the Fedora resources that ArchivesSpace must hear about,
//! from their RDF description.
use vstd::prelude::*;
use rdf::reader::rdf_parser::RdfParser;
use rdf::node::Node;
use crate::error::FedoraError;
use crate::text::str_equal;

verus! {

/// The Hyrax work types that the pipeline knows.
#[derive(Debug, Clone, Copy, PartialEq, Eq, Structural)]
pub enum HyraxModel {
    ArchivalDocument,
    FileSet,
}

/// A Fedora resource that corresponds to an ArchivesSpace record.
#[derive(Debug, PartialEq, Eq)]
pub struct FedoraResource {
    pub uri: String,
    pub model: HyraxModel,
    /// The ArchivesSpace ref_id of the archival object.
    pub ref_id: String,
    /// A direct link to the archival object, when one is known.
    pub related_url: Option<String>,
}

pub struct FedoraResourceView {
    pub uri: Seq<char>,
    pub model: HyraxModel,
    pub ref_id: Seq<char>,
    pub related_url: Option<Seq<char>>,
}

/// The view of an optional string.
pub open spec fn opt_string_view(s: Option<String>) -> Option<Seq<char>> {
    match s {
        Some(x) => Some(x@),
        None => None,
    }
}

impl View for FedoraResource {
    type V = FedoraResourceView;

    open spec fn view(&self) -> FedoraResourceView {
        FedoraResourceView {
            uri: self.uri@,
            model: self.model,
            ref_id: self.ref_id@,
            related_url: opt_string_view(self.related_url),
        }
    }
}

/// A node of an RDF graph.
#[derive(Debug, PartialEq, Eq)]
pub enum RdfNode {
    Uri(String),
    Literal { literal: String, data_type: Option<String>, language: Option<String> },
    Blank(String),
}

pub enum RdfNodeView {
    Uri(Seq<char>),
    Literal { literal: Seq<char>, data_type: Option<Seq<char>>, language: Option<Seq<char>> },
    Blank(Seq<char>),
}

impl View for RdfNode {
    type V = RdfNodeView;

    open spec fn view(&self) -> RdfNodeView {
        match self {
            RdfNode::Uri(u) => RdfNodeView::Uri(u@),
            RdfNode::Literal { literal, data_type, language } => RdfNodeView::Literal {
                literal: literal@,
                data_type: opt_string_view(*data_type),
                language: opt_string_view(*language),
            },
            RdfNode::Blank(id) => RdfNodeView::Blank(id@),
        }
    }
}

/// A subject-predicate-object statement of an RDF graph.
#[derive(Debug, PartialEq, Eq)]
pub struct RdfTriple {
    pub subject: RdfNode,
    pub predicate: RdfNode,
    pub object: RdfNode,
}

pub struct RdfTripleView {
    pub subject: RdfNodeView,
    pub predicate: RdfNodeView,
    pub object: RdfNodeView,
}

impl View for RdfTriple {
    type V = RdfTripleView;

    open spec fn view(&self) -> RdfTripleView {
        RdfTripleView { subject: self.subject@, predicate: self.predicate@, object: self.object@ }
    }
}

pub open spec fn triples_view(ts: Seq<RdfTriple>) -> Seq<RdfTripleView> {
    ts.map_values(|t: RdfTriple| t@)
}

/// Predicate naming the Hyrax model of a resource.
pub open spec fn model_predicate() -> Seq<char> {
    "info:fedora/fedora-system:def/model#hasModel"@
}

/// Predicate holding the ArchivesSpace reference of a resource.
pub open spec fn aspace_ref_predicate() -> Seq<char> {
    "http://purl.org/dc/terms/identifier"@
}

/// The model that the pipeline takes up.
pub open spec fn desired_model() -> Seq<char> {
    "ArchivalDocument"@
}

/// The object of the triple is the literal of the desired model.
pub open spec fn is_desired_model(t: RdfTripleView) -> bool {
    t.object matches RdfNodeView::Literal { literal, .. } && literal == desired_model()
}

/// The literal that the object of the triple holds, if it is a literal.
pub open spec fn identifier_of(t: RdfTripleView) -> Option<Seq<char>> {
    match t.object {
        RdfNodeView::Literal { literal, .. } => Some(literal),
        _ => None,
    }
}

/// The first literal among the objects of the triples.
pub open spec fn first_identifier(ts: Seq<RdfTripleView>) -> Option<Seq<char>>
    decreases ts.len(),
{
    if ts.len() == 0 {
        None
    } else {
        match identifier_of(ts[0]) {
            Some(x) => Some(x),
            None => first_identifier(ts.drop_first()),
        }
    }
}

/// The resource described by its model triples and its reference triples:
/// it exists when some model triple names the desired model and some
/// reference triple holds a literal, the first of which is the reference.
pub open spec fn resource_from_matching(
    model_triples: Seq<RdfTripleView>,
    ref_triples: Seq<RdfTripleView>,
    uri: Seq<char>,
) -> Option<FedoraResourceView> {
    if exists|i: int| 0 <= i < model_triples.len() && is_desired_model(#[trigger] model_triples[i]) {
        match first_identifier(ref_triples) {
            Some(r) => Some(
                FedoraResourceView { uri, model: HyraxModel::ArchivalDocument, ref_id: r, related_url: None },
            ),
            None => None,
        }
    } else {
        None
    }
}

/// The object of the triple is the literal "ArchivalDocument".
pub open spec fn names_archival_document(t: RdfTripleView) -> bool {
    t.object matches RdfNodeView::Literal { literal, .. } && literal == "ArchivalDocument"@
}

/// A resource is recognised exactly when some model triple names the
/// archival-document model and some reference triple holds a literal; its
/// reference is then the literal of a reference triple, with no literal in
/// an earlier one.
pub proof fn lemma_recognised_resource(
    model_triples: Seq<RdfTripleView>,
    ref_triples: Seq<RdfTripleView>,
    uri: Seq<char>,
)
    ensures
        resource_from_matching(model_triples, ref_triples, uri) is Some <==> (
            (exists|i: int| 0 <= i < model_triples.len() && names_archival_document(#[trigger] model_triples[i]))
            && (exists|j: int| 0 <= j < ref_triples.len() && (#[trigger] ref_triples[j]).object is Literal)),
        resource_from_matching(model_triples, ref_triples, uri) matches Some(r) ==> exists|j: int| {
            &&& 0 <= j < ref_triples.len()
            &&& (#[trigger] ref_triples[j]).object matches RdfNodeView::Literal { literal, .. } && literal == r.ref_id
            &&& forall|k: int| 0 <= k < j ==> !(ref_triples[k].object is Literal)
        },
{
    reveal_strlit("ArchivalDocument");
    lemma_first_identifier(ref_triples);
    assert forall|i: int| 0 <= i < model_triples.len() implies
        (is_desired_model(#[trigger] model_triples[i]) <==> names_archival_document(model_triples[i])) by {}
}

/// The first literal object among triples is that of the first triple whose
/// object is a literal.
proof fn lemma_first_identifier(ts: Seq<RdfTripleView>)
    ensures
        first_identifier(ts) is Some <==> exists|j: int| 0 <= j < ts.len() && (#[trigger] ts[j]).object is Literal,
        first_identifier(ts) matches Some(x) ==> exists|j: int| {
            &&& 0 <= j < ts.len()
            &&& (#[trigger] ts[j]).object matches RdfNodeView::Literal { literal, .. } && literal == x
            &&& forall|k: int| 0 <= k < j ==> !(ts[k].object is Literal)
        },
    decreases ts.len(),
{
    if ts.len() > 0 {
        let rest = ts.drop_first();
        lemma_first_identifier(rest);
        if ts[0].object is Literal {
            assert(ts[0].object is Literal);
        } else {
            if exists|j: int| 0 <= j < ts.len() && (#[trigger] ts[j]).object is Literal {
                let j = choose|j: int| 0 <= j < ts.len() && (#[trigger] ts[j]).object is Literal;
                assert(rest[j - 1] == ts[j]);
            }
            if first_identifier(rest) is Some {
                let x = first_identifier(rest)->0;
                let j = choose|j: int| {
                    &&& 0 <= j < rest.len()
                    &&& (#[trigger] rest[j]).object matches RdfNodeView::Literal { literal, .. } && literal == x
                    &&& forall|k: int| 0 <= k < j ==> !(rest[k].object is Literal)
                };
                assert(ts[j + 1] == rest[j]);
                assert forall|k: int| 0 <= k < j + 1 implies !(ts[k].object is Literal) by {
                    if k > 0 {
                        assert(ts[k] == rest[k - 1]);
                    }
                }
            }
        }
    }
}

/// The triples of `triples` whose predicate is the URI `predicate`, in order.
pub open spec fn with_predicate(triples: Seq<RdfTripleView>, predicate: Seq<char>) -> Seq<RdfTripleView> {
    triples.filter(|t: RdfTripleView| t.predicate == RdfNodeView::Uri(predicate))
}

/// The resource described by a whole graph.
pub open spec fn resource_from_triples(triples: Seq<RdfTripleView>, uri: Seq<char>) -> Option<FedoraResourceView> {
    resource_from_matching(
        with_predicate(triples, model_predicate()),
        with_predicate(triples, aspace_ref_predicate()),
        uri,
    )
}

pub open spec fn opt_resource_view(r: Option<FedoraResource>) -> Option<FedoraResourceView> {
    match r {
        Some(x) => Some(x@),
        None => None,
    }
}

/// An RDF graph of the `rdf` crate, carried through opaquely.
#[verifier::external_type_specification]
#[verifier::external_body]
pub struct ExGraph(rdf::graph::Graph);

/// The triples that a graph holds, in the order of its triple store.
pub uninterp spec fn graph_triples(g: rdf::graph::Graph) -> Seq<RdfTripleView>;

/// What `TurtleParser::decode` gives on a text: the triples it reads, or its
/// error as `{:?}` formats it.
pub uninterp spec fn turtle_triples(text: Seq<char>) -> Result<Seq<RdfTripleView>, Seq<char>>;

/// Calls `rdf::graph::Graph::get_triples_with_predicate` with a URI node and
/// converts the triples it returns. Trusted: the result is the graph's triples
/// whose predicate is that URI node, in store order (the crate filters its
/// triple vector).
#[verifier::external_body]
fn triples_with_predicate(g: &rdf::graph::Graph, predicate: &str) -> (res: Vec<RdfTriple>)
    ensures
        triples_view(res@) == with_predicate(graph_triples(*g), predicate@),
{
    let conv = |n: &Node| match n.clone() {
        Node::UriNode { uri } => RdfNode::Uri(uri.to_string().clone()),
        Node::LiteralNode { literal, data_type, language } => RdfNode::Literal {
            literal, data_type: data_type.map(|u| u.to_string().clone()), language },
        Node::BlankNode { id } => RdfNode::Blank(id),
    };
    let pred = Node::UriNode { uri: rdf::uri::Uri::new(predicate.to_string()) };
    g.get_triples_with_predicate(&pred).into_iter()
        .map(|t| RdfTriple { subject: conv(t.subject()), predicate: conv(t.predicate()), object: conv(t.object()) })
        .collect()
}

/// Parses Turtle text with `rdf::reader::turtle_parser::TurtleParser`, and
/// gives its error as `{:?}` formats it. Trusted: on `Ok` the graph holds the
/// triples that the name `turtle_triples` of the text gives, on `Err` the text
/// is the error that it gives.
#[verifier::external_body]
fn decode_turtle(text: &str) -> (res: Result<rdf::graph::Graph, String>)
    ensures
        match res {
            Ok(g) => turtle_triples(text@) == Ok::<Seq<RdfTripleView>, Seq<char>>(graph_triples(g)),
            Err(e) => turtle_triples(text@) == Err::<Seq<RdfTripleView>, Seq<char>>(e@),
        },
{
    rdf::reader::turtle_parser::TurtleParser::from_string(text).decode().map_err(|e| format!("{:?}", e))
}

fn has_desired_model(triple: &RdfTriple) -> (res: bool)
    ensures
        res == is_desired_model(triple@),
{
    match &triple.object {
        RdfNode::Literal { literal, .. } => str_equal(literal.as_str(), "ArchivalDocument"),
        _ => false,
    }
}

fn extract_identifier(triple: &RdfTriple) -> (res: Option<String>)
    ensures
        opt_string_view(res) == identifier_of(triple@),
{
    match &triple.object {
        RdfNode::Literal { literal, .. } => Some(literal.clone()),
        _ => None,
    }
}

impl FedoraResource {
    /// The resource described by the triples of a graph with the model
    /// predicate and those with the reference predicate.
    pub fn from_matching_triples(model_triples: &Vec<RdfTriple>, ref_triples: &Vec<RdfTriple>, uri: &str) -> (res: Option<Self>)
        ensures
            opt_resource_view(res) == resource_from_matching(triples_view(model_triples@), triples_view(ref_triples@), uri@),
            res is Some ==> exists|i: int|
                0 <= i < model_triples@.len() && names_archival_document(#[trigger] model_triples@[i]@),
    {
        proof {
            lemma_recognised_resource(triples_view(model_triples@), triples_view(ref_triples@), uri@);
        }
        let ghost models = triples_view(model_triples@);
        let ghost refs = triples_view(ref_triples@);
        let mut i: usize = 0;
        let mut found = false;
        while i < model_triples.len()
            invariant
                i <= model_triples@.len(),
                models == triples_view(model_triples@),
                found == exists|j: int| 0 <= j < i && is_desired_model(#[trigger] models[j]),
            decreases model_triples@.len() - i,
        {
            if has_desired_model(&model_triples[i]) {
                found = true;
            }
            assert(models[i as int] == model_triples@[i as int]@);
            i = i + 1;
        }
        if !found {
            return None;
        }
        let mut k: usize = 0;
        assert(refs.skip(0) =~= refs);
        while k < ref_triples.len()
            invariant
                k <= ref_triples@.len(),
                models == triples_view(model_triples@),
                exists|j: int| 0 <= j < models.len() && is_desired_model(#[trigger] models[j]),
                refs == triples_view(ref_triples@),
                first_identifier(refs) == first_identifier(refs.skip(k as int)),
            decreases ref_triples@.len() - k,
        {
            assert(refs.skip(k as int)[0] == ref_triples@[k as int]@);
            assert(refs.skip(k as int).drop_first() =~= refs.skip(k + 1));
            if let Some(r) = extract_identifier(&ref_triples[k]) {
                proof {
                    lemma_recognised_resource(models, refs, uri@);
                    assert forall|i: int| 0 <= i < models.len() implies models[i] == (#[trigger] model_triples@[i])@ by {}
                }
                return Some(FedoraResource {
                    uri: uri.to_owned(),
                    model: HyraxModel::ArchivalDocument,
                    ref_id: r,
                    related_url: None,
                });
            }
            k = k + 1;
        }
        assert(refs.skip(k as int).len() == 0);
        None
    }

    /// The resource that a repository graph describes: it must name the
    /// archival-document model and hold an ArchivesSpace reference.
    pub fn from_graph(g: &rdf::graph::Graph, uri: &str) -> (res: Option<Self>)
        ensures
            opt_resource_view(res) == resource_from_triples(graph_triples(*g), uri@),
    {
        let model_triples = triples_with_predicate(g, "info:fedora/fedora-system:def/model#hasModel");
        let ref_triples = triples_with_predicate(g, "http://purl.org/dc/terms/identifier");
        Self::from_matching_triples(&model_triples, &ref_triples, uri)
    }

    /// The resource that the Turtle description of `uri` describes; fails
    /// with `InvalidTurtle`, holding the parser's error, exactly when the text
    /// does not parse.
    pub fn from_turtle(text: &str, uri: &str) -> (res: Result<Option<Self>, FedoraError>)
        ensures
            match turtle_triples(text@) {
                Ok(ts) => res matches Ok(r) && opt_resource_view(r) == resource_from_triples(ts, uri@),
                Err(t) => res matches Err(FedoraError::InvalidTurtle(m)) && m@ == t,
            },
    {
        match decode_turtle(text) {
            Ok(graph) => Ok(Self::from_graph(&graph, uri)),
            Err(e) => Err(FedoraError::InvalidTurtle(e)),
        }
    }
}

} // verus!
