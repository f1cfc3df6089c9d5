//! ArchivesSpace records: how they are addressed, read from the API's JSON
//! and written back.
use vstd::prelude::*;
use crate::error::AspaceError;
use crate::fedora_api::{FedoraResource, FedoraResourceView};
use crate::json::{Json, field, member, find_field, is_first_key, lemma_first_key_unique, set_field, replaces_field, field_pos};
use crate::text::{is_prefix_of, starts_with, concat3, str_equal};
use crate::urls::{parse_url, join_url, parsed_url, joined_url};

verus! {

// ---------------------------------------------------------------------------
// Record addresses

/// A reference to an ArchivesSpace record: an archival object known by its
/// ref_id (the URL is then a query), an archival object known by its URI, or
/// a digital object known by its URI. Each holds a serialised URL.
#[derive(Debug, PartialEq, Eq)]
pub enum ArchivesSpaceRecordId {
    ArchivalObjectRefId(String),
    ArchivalObjectURI(String),
    DigitalObjectURI(String),
}

pub enum RecordIdView {
    ArchivalObjectRefId(Seq<char>),
    ArchivalObjectURI(Seq<char>),
    DigitalObjectURI(Seq<char>),
}

impl View for ArchivesSpaceRecordId {
    type V = RecordIdView;

    open spec fn view(&self) -> RecordIdView {
        match self {
            ArchivesSpaceRecordId::ArchivalObjectRefId(u) => RecordIdView::ArchivalObjectRefId(u@),
            ArchivesSpaceRecordId::ArchivalObjectURI(u) => RecordIdView::ArchivalObjectURI(u@),
            ArchivesSpaceRecordId::DigitalObjectURI(u) => RecordIdView::DigitalObjectURI(u@),
        }
    }
}

impl RecordIdView {
    /// The URL that the reference holds.
    pub open spec fn url(self) -> Seq<char> {
        match self {
            RecordIdView::ArchivalObjectRefId(u) => u,
            RecordIdView::ArchivalObjectURI(u) => u,
            RecordIdView::DigitalObjectURI(u) => u,
        }
    }
}

/// A link is taken as an absolute URL when it starts with "http"; otherwise
/// it is resolved against the base URL. `Err` holds the URL parser's error.
pub open spec fn resolve_link(link: Seq<char>, base_url: Seq<char>) -> Result<Seq<char>, Seq<char>> {
    if is_prefix_of("http"@, link) {
        parsed_url(link)
    } else {
        joined_url(base_url, link)
    }
}

/// `e` is the URL failure that the parser's error `text` gives.
pub open spec fn is_url_error(e: AspaceError, text: Seq<char>) -> bool {
    e matches AspaceError::InvalidUrl(m) && m@ == text
}

/// The relative query that finds an archival object by its ref_id.
pub open spec fn ref_id_query(ref_id: Seq<char>) -> Seq<char> {
    "find_by_id/archival_objects?ref_id[]="@ + ref_id + ";resolve[]=archival_objects"@
}

/// The ref_id query is a relative path: it does not start with '/', so
/// joining it keeps the base URL's path, and it starts with the
/// `find_by_id/archival_objects` endpoint.
pub proof fn lemma_ref_id_query_is_relative(ref_id: Seq<char>)
    ensures
        ref_id_query(ref_id).len() > 0,
        ref_id_query(ref_id)[0] != '/',
        is_prefix_of("find_by_id/archival_objects?ref_id[]="@, ref_id_query(ref_id)),
{
    reveal_strlit("find_by_id/archival_objects?ref_id[]=");
    let q = ref_id_query(ref_id);
    let p = "find_by_id/archival_objects?ref_id[]="@;
    assert(q[0] == p[0]);
    assert(q.subrange(0, p.len() as int) =~= p);
}

/// The archival-object reference for a Fedora resource: its related URL when
/// it has one, else a ref_id query against the base URL. `Err` holds the URL
/// parser's error.
pub open spec fn record_id_for(resource: FedoraResourceView, base_url: Seq<char>) -> Result<RecordIdView, Seq<char>> {
    match resource.related_url {
        Some(link) => match resolve_link(link, base_url) {
            Ok(u) => Ok(RecordIdView::ArchivalObjectURI(u)),
            Err(t) => Err(t),
        },
        None => match joined_url(base_url, ref_id_query(resource.ref_id)) {
            Ok(u) => Ok(RecordIdView::ArchivalObjectRefId(u)),
            Err(t) => Err(t),
        },
    }
}

/// The digital-object reference for a link found in an archival object.
pub open spec fn digital_record_id(link: Seq<char>, base_url: Seq<char>) -> Result<RecordIdView, Seq<char>> {
    match resolve_link(link, base_url) {
        Ok(u) => Ok(RecordIdView::DigitalObjectURI(u)),
        Err(t) => Err(t),
    }
}

fn resolve_link_exec(link: &str, base_url: &str) -> (res: Result<String, AspaceError>)
    ensures
        match resolve_link(link@, base_url@) {
            Ok(u) => res matches Ok(s) && s@ == u,
            Err(t) => res matches Err(e) && is_url_error(e, t),
        },
{
    let parsed = if starts_with(link, "http") {
        parse_url(link)
    } else {
        join_url(base_url, link)
    };
    match parsed {
        Ok(u) => Ok(u),
        Err(text) => Err(AspaceError::InvalidUrl(text)),
    }
}

impl ArchivesSpaceRecordId {
    /// The reference to the archival object that corresponds to a Fedora
    /// resource; `InvalidUrl`, with the URL parser's error, exactly when the
    /// URL cannot be formed.
    pub fn from_fedora_resource(resource: &FedoraResource, base_url: &str) -> (res: Result<Self, AspaceError>)
        ensures
            match record_id_for(resource@, base_url@) {
                Ok(id) => res matches Ok(r) && r@ == id,
                Err(t) => res matches Err(e) && is_url_error(e, t),
            },
            resource.related_url is None ==> match joined_url(
                base_url@,
                "find_by_id/archival_objects?ref_id[]="@ + resource.ref_id@ + ";resolve[]=archival_objects"@,
            ) {
                Ok(u) => res matches Ok(r) && r@ == RecordIdView::ArchivalObjectRefId(u),
                Err(t) => res matches Err(e) && is_url_error(e, t),
            },
    {
        match &resource.related_url {
            Some(link) => {
                let u = resolve_link_exec(link.as_str(), base_url)?;
                Ok(ArchivesSpaceRecordId::ArchivalObjectURI(u))
            },
            None => {
                let query = concat3(
                    "find_by_id/archival_objects?ref_id[]=",
                    resource.ref_id.as_str(),
                    ";resolve[]=archival_objects",
                );
                match join_url(base_url, query.as_str()) {
                    Ok(u) => Ok(ArchivesSpaceRecordId::ArchivalObjectRefId(u)),
                    Err(text) => Err(AspaceError::InvalidUrl(text)),
                }
            },
        }
    }

    /// The reference to a digital object, from the link that an archival
    /// object gives; `InvalidUrl`, with the URL parser's error, exactly when
    /// the URL cannot be formed.
    pub fn from_digital_object_ref(digital_object_ref: &str, base_url: &str) -> (res: Result<Self, AspaceError>)
        ensures
            match digital_record_id(digital_object_ref@, base_url@) {
                Ok(id) => res matches Ok(r) && r@ == id,
                Err(t) => res matches Err(e) && is_url_error(e, t),
            },
    {
        let u = resolve_link_exec(digital_object_ref, base_url)?;
        Ok(ArchivesSpaceRecordId::DigitalObjectURI(u))
    }

    /// The URL of the record.
    pub fn url(&self) -> (res: String)
        ensures
            res@ == self@.url(),
    {
        match self {
            ArchivesSpaceRecordId::ArchivalObjectURI(url) => url.clone(),
            ArchivesSpaceRecordId::ArchivalObjectRefId(url) => url.clone(),
            ArchivesSpaceRecordId::DigitalObjectURI(url) => url.clone(),
        }
    }
}

// ---------------------------------------------------------------------------
// Login

/// Login data for ArchivesSpace; `base_url` holds the parsed URL in
/// serialised form.
#[derive(Debug)]
pub struct Auth {
    pub base_url: String,
    username: String,
    password: String,
}

impl Auth {
    pub closed spec fn spec_base_url(&self) -> Seq<char> {
        self.base_url@
    }

    pub closed spec fn spec_username(&self) -> Seq<char> {
        self.username@
    }

    pub closed spec fn spec_password(&self) -> Seq<char> {
        self.password@
    }

    /// Fails with `InvalidUrl`, holding the URL parser's error, exactly when
    /// `base_url` does not parse.
    pub fn new(username: &str, password: &str, base_url: &str) -> (res: Result<Self, AspaceError>)
        ensures
            match parsed_url(base_url@) {
                Ok(u) => res matches Ok(auth) && {
                    &&& auth.spec_base_url() == u
                    &&& auth.spec_username() == username@
                    &&& auth.spec_password() == password@
                },
                Err(t) => res matches Err(e) && is_url_error(e, t),
            },
    {
        match parse_url(base_url) {
            Ok(url) => Ok(Auth { username: username.to_owned(), password: password.to_owned(), base_url: url }),
            Err(text) => Err(AspaceError::InvalidUrl(text)),
        }
    }

    /// The URL to post the login form to: `users/{username}/login` resolved
    /// against the base URL; `InvalidUrl` with the URL parser's error when
    /// that fails.
    pub fn login_url(&self) -> (res: Result<String, AspaceError>)
        ensures
            match joined_url(self.spec_base_url(), "users/"@ + self.spec_username() + "/login"@) {
                Ok(u) => res matches Ok(s) && s@ == u,
                Err(t) => res matches Err(e) && is_url_error(e, t),
            },
    {
        let path = concat3("users/", self.username.as_str(), "/login");
        match join_url(self.base_url.as_str(), path.as_str()) {
            Ok(u) => Ok(u),
            Err(text) => Err(AspaceError::InvalidUrl(text)),
        }
    }

    /// The login form: the password, under the name `password`.
    pub fn login_form(&self) -> (res: Vec<(String, String)>)
        ensures
            res@.len() == 1,
            res@[0].0@ == "password"@,
            res@[0].1@ == self.spec_password(),
    {
        let mut form: Vec<(String, String)> = Vec::new();
        form.push(("password".to_owned(), self.password.clone()));
        form
    }
}

// ---------------------------------------------------------------------------
// Decoding JSON into records, as `serde` does for these plain structs: an
// object gives the fields by name (other members are ignored, an absent or
// null member gives `None` to an optional field), an array of exactly as many
// elements as fields gives them by position.

/// The encoding of field `key`, number `index` of `count`, of a struct:
/// `Some(None)` when an object lacks the member, `None` when `v` cannot
/// encode the struct at all.
pub open spec fn struct_field(v: Json, key: Seq<char>, index: int, count: int) -> Option<Option<Json>> {
    match v {
        Json::Object(entries) => Some(field(entries@, key)),
        Json::Array(items) => if items@.len() == count {
            Some(Some(items@[index]))
        } else {
            None
        },
        _ => None,
    }
}

pub open spec fn json_string(v: Json) -> Option<Seq<char>> {
    match v {
        Json::Str(s) => Some(s@),
        _ => None,
    }
}

pub open spec fn json_bool(v: Json) -> Option<bool> {
    match v {
        Json::Bool(b) => Some(b),
        _ => None,
    }
}

/// A required string field.
pub open spec fn required_string(f: Option<Option<Json>>) -> Option<Seq<char>> {
    match f {
        Some(Some(x)) => json_string(x),
        _ => None,
    }
}

/// A required boolean field.
pub open spec fn required_bool(f: Option<Option<Json>>) -> Option<bool> {
    match f {
        Some(Some(x)) => json_bool(x),
        _ => None,
    }
}

/// The encoding of a struct's field, when it must be present.
pub open spec fn required(f: Option<Option<Json>>) -> Option<Json> {
    match f {
        Some(Some(x)) => Some(x),
        _ => None,
    }
}

fn struct_field_exec<'a>(v: &'a Json, key: &str, index: usize, count: usize) -> (res: Option<Option<&'a Json>>)
    requires
        index < count,
    ensures
        match res {
            None => struct_field(*v, key@, index as int, count as int) is None,
            Some(None) => struct_field(*v, key@, index as int, count as int) == Some(None::<Json>),
            Some(Some(r)) => struct_field(*v, key@, index as int, count as int) == Some(Some(*r)),
        },
{
    match v {
        Json::Object(entries) => match find_field(entries, key) {
            Some(i) => Some(Some(&entries[i].1)),
            None => Some(None),
        },
        Json::Array(items) => if items.len() == count {
            Some(Some(&items[index]))
        } else {
            None
        },
        _ => None,
    }
}

fn required_string_exec(f: Option<Option<&Json>>) -> (res: Option<String>)
    ensures
        opt_seq(res) == required_string(deref_field(f)),
{
    match f {
        Some(Some(Json::Str(s))) => Some(s.clone()),
        _ => None,
    }
}

fn required_bool_exec(f: Option<Option<&Json>>) -> (res: Option<bool>)
    ensures
        res == required_bool(deref_field(f)),
{
    match f {
        Some(Some(Json::Bool(b))) => Some(*b),
        _ => None,
    }
}

pub open spec fn deref_field(f: Option<Option<&Json>>) -> Option<Option<Json>> {
    match f {
        Some(Some(r)) => Some(Some(*r)),
        Some(None) => Some(None),
        None => None,
    }
}

pub open spec fn opt_seq(s: Option<String>) -> Option<Seq<char>> {
    match s {
        Some(x) => Some(x@),
        None => None,
    }
}

// --- digital object references and instances

/// Used to read the reference to a digital object stored in an archival
/// object (the member is named `ref`).
#[derive(Debug, PartialEq, Eq)]
pub struct DigitalObjectRef {
    pub ref_: String,
}

impl View for DigitalObjectRef {
    type V = Seq<char>;

    open spec fn view(&self) -> Seq<char> {
        self.ref_@
    }
}

pub open spec fn digital_object_ref_from(v: Json) -> Option<Seq<char>> {
    required_string(struct_field(v, "ref"@, 0, 1))
}

/// An optional digital-object reference: absent or null is none.
pub open spec fn optional_ref(f: Option<Option<Json>>) -> Option<Option<Seq<char>>> {
    match f {
        None => None,
        Some(None) => Some(None),
        Some(Some(Json::Null)) => Some(None),
        Some(Some(x)) => match digital_object_ref_from(x) {
            Some(r) => Some(Some(r)),
            None => None,
        },
    }
}

fn digital_object_ref_from_json(v: &Json) -> (res: Option<DigitalObjectRef>)
    ensures
        match res {
            Some(r) => digital_object_ref_from(*v) == Some(r@),
            None => digital_object_ref_from(*v) is None,
        },
{
    let s = required_string_exec(struct_field_exec(v, "ref", 0, 1))?;
    Some(DigitalObjectRef { ref_: s })
}

/// An instance of an archival object; it may refer to a digital object.
#[derive(Debug, PartialEq, Eq)]
pub struct Instance {
    pub instance_type: String,
    pub digital_object: Option<DigitalObjectRef>,
}

pub struct InstanceView {
    pub instance_type: Seq<char>,
    pub digital_object: Option<Seq<char>>,
}

impl View for Instance {
    type V = InstanceView;

    open spec fn view(&self) -> InstanceView {
        InstanceView {
            instance_type: self.instance_type@,
            digital_object: match self.digital_object {
                Some(r) => Some(r@),
                None => None,
            },
        }
    }
}

pub open spec fn instance_from(v: Json) -> Option<InstanceView> {
    match (
        required_string(struct_field(v, "instance_type"@, 0, 2)),
        optional_ref(struct_field(v, "digital_object"@, 1, 2)),
    ) {
        (Some(t), Some(d)) => Some(InstanceView { instance_type: t, digital_object: d }),
        _ => None,
    }
}

fn instance_from_json(v: &Json) -> (res: Option<Instance>)
    ensures
        match res {
            Some(i) => instance_from(*v) == Some(i@),
            None => instance_from(*v) is None,
        },
{
    let t = required_string_exec(struct_field_exec(v, "instance_type", 0, 2))?;
    let d = match struct_field_exec(v, "digital_object", 1, 2) {
        None => return None,
        Some(None) => None,
        Some(Some(Json::Null)) => None,
        Some(Some(x)) => Some(digital_object_ref_from_json(x)?),
    };
    Some(Instance { instance_type: t, digital_object: d })
}

/// The instances encoded by a JSON array; `None` when the value is no array
/// or some element is no instance.
pub open spec fn instances_from(v: Json) -> Option<Seq<InstanceView>> {
    match v {
        Json::Array(items) => if forall|i: int| 0 <= i < items@.len() ==> (#[trigger] instance_from(items@[i])) is Some {
            Some(items@.map_values(|x: Json| instance_from(x)->0))
        } else {
            None
        },
        _ => None,
    }
}

// --- archival objects

/// The part of an archival object that the pipeline reads: its instances.
#[derive(Debug, PartialEq, Eq)]
pub struct ArchivalObject {
    pub instances: Vec<Instance>,
}

pub struct ArchivalObjectView {
    pub instances: Seq<InstanceView>,
}

impl View for ArchivalObject {
    type V = ArchivalObjectView;

    open spec fn view(&self) -> ArchivalObjectView {
        ArchivalObjectView { instances: self.instances@.map_values(|i: Instance| i@) }
    }
}

pub open spec fn archival_object_from(v: Json) -> Option<ArchivalObjectView> {
    match required(struct_field(v, "instances"@, 0, 1)) {
        Some(x) => match instances_from(x) {
            Some(instances) => Some(ArchivalObjectView { instances }),
            None => None,
        },
        None => None,
    }
}

fn instances_from_json(v: &Json) -> (res: Option<Vec<Instance>>)
    ensures
        match res {
            Some(xs) => instances_from(*v) == Some(xs@.map_values(|i: Instance| i@)),
            None => instances_from(*v) is None,
        },
{
    match v {
        Json::Array(items) => {
            let mut out: Vec<Instance> = Vec::new();
            let mut i: usize = 0;
            while i < items.len()
                invariant
                    *v == Json::Array(*items),
                    i <= items@.len(),
                    out@.len() == i,
                    forall|k: int| 0 <= k < i ==> instance_from(items@[k]) == Some((#[trigger] out@[k])@),
                decreases items@.len() - i,
            {
                match instance_from_json(&items[i]) {
                    Some(inst) => out.push(inst),
                    None => {
                        assert(instance_from(items@[i as int]) is None);
                        return None;
                    },
                }
                i = i + 1;
            }
            assert forall|k: int| 0 <= k < items@.len() implies (#[trigger] instance_from(items@[k])) is Some by {
                assert(instance_from(items@[k]) == Some(out@[k]@));
            }
            assert(out@.map_values(|i: Instance| i@) =~= items@.map_values(|x: Json| instance_from(x)->0));
            Some(out)
        },
        _ => None,
    }
}

impl ArchivalObject {
    /// Reads an archival object from its JSON.
    pub fn from_json(v: &Json) -> (res: Option<Self>)
        ensures
            match res {
                Some(a) => archival_object_from(*v) == Some(a@),
                None => archival_object_from(*v) is None,
            },
    {
        match struct_field_exec(v, "instances", 0, 1) {
            Some(Some(x)) => {
                let instances = instances_from_json(x)?;
                Some(ArchivalObject { instances })
            },
            _ => None,
        }
    }

    /// The reference to a digital object: that of the first instance of type
    /// `digital_object`, if that instance has one.
    pub fn extract_digital_object_ref(&self) -> (res: Option<String>)
        ensures
            opt_seq(res) == digital_object_ref_of(self@),
            forall|k: int| is_first_digital_instance(self@.instances, k)
                ==> opt_seq(res) == self@.instances[k].digital_object,
            (forall|k: int| 0 <= k < self@.instances.len() ==> (#[trigger] self@.instances[k]).instance_type != "digital_object"@)
                ==> res is None,
    {
        proof {
            lemma_digital_object_ref_is_first(self@);
        }
        let ghost insts = self@.instances;
        let mut i: usize = 0;
        assert(insts.skip(0) =~= insts);
        while i < self.instances.len()
            invariant
                i <= self.instances@.len(),
                insts == self@.instances,
                first_digital_instance(insts) == first_digital_instance(insts.skip(i as int)),
            decreases self.instances@.len() - i,
        {
            assert(insts.skip(i as int)[0] == self.instances@[i as int]@);
            assert(insts.skip(i as int).drop_first() =~= insts.skip(i + 1));
            let instance = &self.instances[i];
            if str_equal(instance.instance_type.as_str(), "digital_object") {
                proof {
                    lemma_digital_object_ref_is_first(self@);
                }
                return match &instance.digital_object {
                    Some(r) => Some(r.ref_.clone()),
                    None => None,
                };
            }
            i = i + 1;
        }
        None
    }
}

/// The first instance whose type is `digital_object`.
pub open spec fn first_digital_instance(instances: Seq<InstanceView>) -> Option<InstanceView>
    decreases instances.len(),
{
    if instances.len() == 0 {
        None
    } else if instances[0].instance_type == "digital_object"@ {
        Some(instances[0])
    } else {
        first_digital_instance(instances.drop_first())
    }
}

/// Instance `k` is the first whose type is `digital_object`.
pub open spec fn is_first_digital_instance(instances: Seq<InstanceView>, k: int) -> bool {
    &&& 0 <= k < instances.len()
    &&& instances[k].instance_type == "digital_object"@
    &&& forall|j: int| 0 <= j < k ==> (#[trigger] instances[j]).instance_type != "digital_object"@
}

proof fn lemma_first_digital_instance_at(instances: Seq<InstanceView>, k: int)
    requires
        is_first_digital_instance(instances, k),
    ensures
        first_digital_instance(instances) == Some(instances[k]),
    decreases instances.len(),
{
    if k > 0 {
        let rest = instances.drop_first();
        assert(instances[0].instance_type != "digital_object"@);
        assert forall|j: int| 0 <= j < k - 1 implies (#[trigger] rest[j]).instance_type != "digital_object"@ by {
            assert(rest[j] == instances[j + 1]);
        }
        assert(rest[k - 1] == instances[k]);
        lemma_first_digital_instance_at(rest, k - 1);
    }
}

proof fn lemma_no_digital_instance(instances: Seq<InstanceView>)
    requires
        forall|k: int| 0 <= k < instances.len() ==> (#[trigger] instances[k]).instance_type != "digital_object"@,
    ensures
        first_digital_instance(instances) is None,
    decreases instances.len(),
{
    if instances.len() > 0 {
        let rest = instances.drop_first();
        assert(instances[0].instance_type != "digital_object"@);
        assert forall|j: int| 0 <= j < rest.len() implies (#[trigger] rest[j]).instance_type != "digital_object"@ by {
            assert(rest[j] == instances[j + 1]);
        }
        lemma_no_digital_instance(rest);
    }
}

/// The reference of an archival object is that of its first
/// `digital_object` instance, wherever that instance stands; with no such
/// instance there is none.
pub proof fn lemma_digital_object_ref_is_first(a: ArchivalObjectView)
    ensures
        forall|k: int| is_first_digital_instance(a.instances, k)
            ==> digital_object_ref_of(a) == a.instances[k].digital_object,
        (forall|k: int| 0 <= k < a.instances.len() ==> (#[trigger] a.instances[k]).instance_type != "digital_object"@)
            ==> digital_object_ref_of(a) is None,
{
    assert forall|k: int| is_first_digital_instance(a.instances, k)
        implies digital_object_ref_of(a) == a.instances[k].digital_object by {
        lemma_first_digital_instance_at(a.instances, k);
    }
    if forall|k: int| 0 <= k < a.instances.len() ==> (#[trigger] a.instances[k]).instance_type != "digital_object"@ {
        lemma_no_digital_instance(a.instances);
    }
}

/// The digital-object reference of an archival object.
pub open spec fn digital_object_ref_of(a: ArchivalObjectView) -> Option<Seq<char>> {
    match first_digital_instance(a.instances) {
        Some(inst) => inst.digital_object,
        None => None,
    }
}

// --- file versions and digital objects

/// A version of a digital object: where its file is and how to show it.
#[derive(Debug, PartialEq, Eq)]
pub struct FileVersion {
    pub jsonmodel_type: String,
    pub file_uri: String,
    pub use_statement: String,
    pub xlink_actuate_attribute: String,
    pub xlink_show_attribute: String,
    pub publish: bool,
    pub is_representative: bool,
}

pub struct FileVersionView {
    pub jsonmodel_type: Seq<char>,
    pub file_uri: Seq<char>,
    pub use_statement: Seq<char>,
    pub xlink_actuate_attribute: Seq<char>,
    pub xlink_show_attribute: Seq<char>,
    pub publish: bool,
    pub is_representative: bool,
}

impl View for FileVersion {
    type V = FileVersionView;

    open spec fn view(&self) -> FileVersionView {
        FileVersionView {
            jsonmodel_type: self.jsonmodel_type@,
            file_uri: self.file_uri@,
            use_statement: self.use_statement@,
            xlink_actuate_attribute: self.xlink_actuate_attribute@,
            xlink_show_attribute: self.xlink_show_attribute@,
            publish: self.publish,
            is_representative: self.is_representative,
        }
    }
}

/// The file version that the pipeline adds for a Hyrax resource.
pub open spec fn new_file_version(file_uri: Seq<char>) -> FileVersionView {
    FileVersionView {
        jsonmodel_type: "file_version"@,
        file_uri,
        use_statement: "public-access"@,
        xlink_actuate_attribute: "onRequest"@,
        xlink_show_attribute: "new"@,
        publish: true,
        is_representative: false,
    }
}

pub open spec fn file_version_from(v: Json) -> Option<FileVersionView> {
    match (
        required_string(struct_field(v, "jsonmodel_type"@, 0, 7)),
        required_string(struct_field(v, "file_uri"@, 1, 7)),
        required_string(struct_field(v, "use_statement"@, 2, 7)),
        required_string(struct_field(v, "xlink_actuate_attribute"@, 3, 7)),
        required_string(struct_field(v, "xlink_show_attribute"@, 4, 7)),
        required_bool(struct_field(v, "publish"@, 5, 7)),
        required_bool(struct_field(v, "is_representative"@, 6, 7)),
    ) {
        (Some(a), Some(b), Some(c), Some(d), Some(e), Some(f), Some(g)) => Some(
            FileVersionView {
                jsonmodel_type: a,
                file_uri: b,
                use_statement: c,
                xlink_actuate_attribute: d,
                xlink_show_attribute: e,
                publish: f,
                is_representative: g,
            },
        ),
        _ => None,
    }
}

/// The file versions encoded by a JSON array.
pub open spec fn file_versions_from(v: Json) -> Option<Seq<FileVersionView>> {
    match v {
        Json::Array(items) => if forall|i: int| 0 <= i < items@.len() ==> (#[trigger] file_version_from(items@[i])) is Some {
            Some(items@.map_values(|x: Json| file_version_from(x)->0))
        } else {
            None
        },
        _ => None,
    }
}

pub open spec fn string_entry(e: (String, Json), key: Seq<char>, value: Seq<char>) -> bool {
    e.0@ == key && json_string(e.1) == Some(value)
}

pub open spec fn bool_entry(e: (String, Json), key: Seq<char>, value: bool) -> bool {
    e.0@ == key && e.1 == Json::Bool(value)
}

/// `v` is the JSON object that `serde` writes for the file version.
pub open spec fn is_file_version_json(v: Json, fv: FileVersionView) -> bool {
    match v {
        Json::Object(e) => {
            &&& e@.len() == 7
            &&& string_entry(e@[0], "jsonmodel_type"@, fv.jsonmodel_type)
            &&& string_entry(e@[1], "file_uri"@, fv.file_uri)
            &&& string_entry(e@[2], "use_statement"@, fv.use_statement)
            &&& string_entry(e@[3], "xlink_actuate_attribute"@, fv.xlink_actuate_attribute)
            &&& string_entry(e@[4], "xlink_show_attribute"@, fv.xlink_show_attribute)
            &&& bool_entry(e@[5], "publish"@, fv.publish)
            &&& bool_entry(e@[6], "is_representative"@, fv.is_representative)
        },
        _ => false,
    }
}

/// `v` is the JSON array that `serde` writes for the file versions.
pub open spec fn is_file_versions_json(v: Json, fvs: Seq<FileVersionView>) -> bool {
    match v {
        Json::Array(items) => {
            &&& items@.len() == fvs.len()
            &&& forall|i: int| 0 <= i < fvs.len() ==> is_file_version_json(#[trigger] items@[i], fvs[i])
        },
        _ => false,
    }
}

/// The member `key` of `v` is the string `value`.
pub open spec fn has_string_member(v: Json, key: Seq<char>, value: Seq<char>) -> bool {
    member(v, key) matches Some(Json::Str(s)) && s@ == value
}

/// Each member of `v` named after a field of the file version holds that
/// field's value.
pub open spec fn members_match_file_version(v: Json, fv: FileVersionView) -> bool {
    &&& has_string_member(v, "jsonmodel_type"@, fv.jsonmodel_type)
    &&& has_string_member(v, "file_uri"@, fv.file_uri)
    &&& has_string_member(v, "use_statement"@, fv.use_statement)
    &&& has_string_member(v, "xlink_actuate_attribute"@, fv.xlink_actuate_attribute)
    &&& has_string_member(v, "xlink_show_attribute"@, fv.xlink_show_attribute)
    &&& member(v, "publish"@) == Some(Json::Bool(fv.publish))
    &&& member(v, "is_representative"@) == Some(Json::Bool(fv.is_representative))
}

/// The last element of a record's `file_versions` member.
pub open spec fn last_file_version(record: Json) -> Option<Json> {
    match member(record, "file_versions"@) {
        Some(Json::Array(items)) => if items@.len() > 0 {
            Some(items@.last())
        } else {
            None
        },
        _ => None,
    }
}

/// The JSON written for a file version carries, under each field's name,
/// that field's value.
pub proof fn lemma_file_version_json_members(v: Json, fv: FileVersionView)
    requires
        is_file_version_json(v, fv),
    ensures
        members_match_file_version(v, fv),
{
    reveal_strlit("jsonmodel_type");
    reveal_strlit("file_uri");
    reveal_strlit("use_statement");
    reveal_strlit("xlink_actuate_attribute");
    reveal_strlit("xlink_show_attribute");
    reveal_strlit("publish");
    reveal_strlit("is_representative");
    assert("jsonmodel_type"@.len() == 14);
    assert("file_uri"@.len() == 8);
    assert("use_statement"@.len() == 13);
    assert("xlink_actuate_attribute"@.len() == 23);
    assert("xlink_show_attribute"@.len() == 20);
    assert("publish"@.len() == 7);
    assert("is_representative"@.len() == 17);
    if let Json::Object(entries) = v {
        let e = entries@;
        assert(is_first_key(e, "jsonmodel_type"@, 0));
        lemma_first_key_unique(e, "jsonmodel_type"@, 0);
        assert(is_first_key(e, "file_uri"@, 1));
        lemma_first_key_unique(e, "file_uri"@, 1);
        assert(is_first_key(e, "use_statement"@, 2));
        lemma_first_key_unique(e, "use_statement"@, 2);
        assert(is_first_key(e, "xlink_actuate_attribute"@, 3));
        lemma_first_key_unique(e, "xlink_actuate_attribute"@, 3);
        assert(is_first_key(e, "xlink_show_attribute"@, 4));
        lemma_first_key_unique(e, "xlink_show_attribute"@, 4);
        assert(is_first_key(e, "publish"@, 5));
        lemma_first_key_unique(e, "publish"@, 5);
        assert(is_first_key(e, "is_representative"@, 6));
        lemma_first_key_unique(e, "is_representative"@, 6);
    }
}

/// A file version decoded from a JSON object takes each field from the
/// member of the same name, whatever other members the object has.
pub proof fn lemma_decoded_file_version_members(v: Json)
    requires
        v is Object,
        file_version_from(v) is Some,
    ensures
        members_match_file_version(v, file_version_from(v)->0),
{
}

/// Reading back the JSON of a file version gives the file version.
pub proof fn lemma_file_version_json_reads_back(v: Json, fv: FileVersionView)
    requires
        is_file_version_json(v, fv),
    ensures
        file_version_from(v) == Some(fv),
{
    reveal_strlit("jsonmodel_type");
    reveal_strlit("file_uri");
    reveal_strlit("use_statement");
    reveal_strlit("xlink_actuate_attribute");
    reveal_strlit("xlink_show_attribute");
    reveal_strlit("publish");
    reveal_strlit("is_representative");
    assert("jsonmodel_type"@.len() == 14);
    assert("file_uri"@.len() == 8);
    assert("use_statement"@.len() == 13);
    assert("xlink_actuate_attribute"@.len() == 23);
    assert("xlink_show_attribute"@.len() == 20);
    assert("publish"@.len() == 7);
    assert("is_representative"@.len() == 17);
    if let Json::Object(entries) = v {
        let e = entries@;
        assert(is_first_key(e, "jsonmodel_type"@, 0));
        lemma_first_key_unique(e, "jsonmodel_type"@, 0);
        assert(is_first_key(e, "file_uri"@, 1));
        lemma_first_key_unique(e, "file_uri"@, 1);
        assert(is_first_key(e, "use_statement"@, 2));
        lemma_first_key_unique(e, "use_statement"@, 2);
        assert(is_first_key(e, "xlink_actuate_attribute"@, 3));
        lemma_first_key_unique(e, "xlink_actuate_attribute"@, 3);
        assert(is_first_key(e, "xlink_show_attribute"@, 4));
        lemma_first_key_unique(e, "xlink_show_attribute"@, 4);
        assert(is_first_key(e, "publish"@, 5));
        lemma_first_key_unique(e, "publish"@, 5);
        assert(is_first_key(e, "is_representative"@, 6));
        lemma_first_key_unique(e, "is_representative"@, 6);
    }
}

/// Reading back the JSON of file versions gives the file versions.
pub proof fn lemma_file_versions_json_reads_back(v: Json, fvs: Seq<FileVersionView>)
    requires
        is_file_versions_json(v, fvs),
    ensures
        file_versions_from(v) == Some(fvs),
{
    if let Json::Array(items) = v {
        assert forall|i: int| 0 <= i < items@.len() implies (#[trigger] file_version_from(items@[i])) == Some(fvs[i]) by {
            lemma_file_version_json_reads_back(items@[i], fvs[i]);
        }
        assert(items@.map_values(|x: Json| file_version_from(x)->0) =~= fvs);
    }
}

impl FileVersion {
    /// A public-access version pointing to `file_uri`, opened on request in
    /// a new window, published and not representative.
    pub fn new(file_uri: &str) -> (res: Self)
        ensures
            res@ == new_file_version(file_uri@),
    {
        FileVersion {
            jsonmodel_type: "file_version".to_owned(),
            file_uri: file_uri.to_owned(),
            use_statement: "public-access".to_owned(),
            xlink_actuate_attribute: "onRequest".to_owned(),
            xlink_show_attribute: "new".to_owned(),
            publish: true,
            is_representative: false,
        }
    }

    /// Reads a file version from its JSON.
    pub fn from_json(v: &Json) -> (res: Option<Self>)
        ensures
            match res {
                Some(f) => file_version_from(*v) == Some(f@),
                None => file_version_from(*v) is None,
            },
            res matches Some(f) ==> (*v is Object ==> members_match_file_version(*v, f@)),
    {
        let a = required_string_exec(struct_field_exec(v, "jsonmodel_type", 0, 7))?;
        let b = required_string_exec(struct_field_exec(v, "file_uri", 1, 7))?;
        let c = required_string_exec(struct_field_exec(v, "use_statement", 2, 7))?;
        let d = required_string_exec(struct_field_exec(v, "xlink_actuate_attribute", 3, 7))?;
        let e = required_string_exec(struct_field_exec(v, "xlink_show_attribute", 4, 7))?;
        let f = required_bool_exec(struct_field_exec(v, "publish", 5, 7))?;
        let g = required_bool_exec(struct_field_exec(v, "is_representative", 6, 7))?;
        Some(FileVersion {
            jsonmodel_type: a,
            file_uri: b,
            use_statement: c,
            xlink_actuate_attribute: d,
            xlink_show_attribute: e,
            publish: f,
            is_representative: g,
        })
    }

    /// The JSON object of the file version, with its members in field order.
    pub fn to_json(&self) -> (res: Json)
        ensures
            is_file_version_json(res, self@),
            res is Object,
            members_match_file_version(res, self@),
    {
        let mut e: Vec<(String, Json)> = Vec::new();
        e.push(("jsonmodel_type".to_owned(), Json::Str(self.jsonmodel_type.clone())));
        e.push(("file_uri".to_owned(), Json::Str(self.file_uri.clone())));
        e.push(("use_statement".to_owned(), Json::Str(self.use_statement.clone())));
        e.push(("xlink_actuate_attribute".to_owned(), Json::Str(self.xlink_actuate_attribute.clone())));
        e.push(("xlink_show_attribute".to_owned(), Json::Str(self.xlink_show_attribute.clone())));
        e.push(("publish".to_owned(), Json::Bool(self.publish)));
        e.push(("is_representative".to_owned(), Json::Bool(self.is_representative)));
        let res = Json::Object(e);
        proof {
            lemma_file_version_json_members(res, self@);
        }
        res
    }
}

pub open spec fn file_versions_view(fvs: Seq<FileVersion>) -> Seq<FileVersionView> {
    fvs.map_values(|f: FileVersion| f@)
}

fn file_versions_from_json(v: &Json) -> (res: Option<Vec<FileVersion>>)
    ensures
        match res {
            Some(xs) => file_versions_from(*v) == Some(file_versions_view(xs@)),
            None => file_versions_from(*v) is None,
        },
{
    match v {
        Json::Array(items) => {
            let mut out: Vec<FileVersion> = Vec::new();
            let mut i: usize = 0;
            while i < items.len()
                invariant
                    *v == Json::Array(*items),
                    i <= items@.len(),
                    out@.len() == i,
                    forall|k: int| 0 <= k < i ==> file_version_from(items@[k]) == Some((#[trigger] out@[k])@),
                decreases items@.len() - i,
            {
                match FileVersion::from_json(&items[i]) {
                    Some(fv) => out.push(fv),
                    None => {
                        assert(file_version_from(items@[i as int]) is None);
                        return None;
                    },
                }
                i = i + 1;
            }
            assert forall|k: int| 0 <= k < items@.len() implies (#[trigger] file_version_from(items@[k])) is Some by {
                assert(file_version_from(items@[k]) == Some(out@[k]@));
            }
            assert(file_versions_view(out@) =~= items@.map_values(|x: Json| file_version_from(x)->0));
            Some(out)
        },
        _ => None,
    }
}

/// The JSON array of the file versions.
fn file_versions_to_json(fvs: &Vec<FileVersion>) -> (res: Json)
    ensures
        is_file_versions_json(res, file_versions_view(fvs@)),
{
    let mut items: Vec<Json> = Vec::new();
    let mut i: usize = 0;
    while i < fvs.len()
        invariant
            i <= fvs@.len(),
            items@.len() == i,
            forall|k: int| 0 <= k < i ==> is_file_version_json(#[trigger] items@[k], fvs@[k]@),
        decreases fvs@.len() - i,
    {
        items.push(fvs[i].to_json());
        i = i + 1;
    }
    Json::Array(items)
}

/// The part of a digital object that the pipeline changes: its file versions.
#[derive(Debug, PartialEq, Eq)]
pub struct DigitalObject {
    pub file_versions: Vec<FileVersion>,
}

pub struct DigitalObjectView {
    pub file_versions: Seq<FileVersionView>,
}

impl View for DigitalObject {
    type V = DigitalObjectView;

    open spec fn view(&self) -> DigitalObjectView {
        DigitalObjectView { file_versions: file_versions_view(self.file_versions@) }
    }
}

pub open spec fn digital_object_from(v: Json) -> Option<DigitalObjectView> {
    match required(struct_field(v, "file_versions"@, 0, 1)) {
        Some(x) => match file_versions_from(x) {
            Some(fvs) => Some(DigitalObjectView { file_versions: fvs }),
            None => None,
        },
        None => None,
    }
}

/// A digital object decoded from a JSON object takes its file versions,
/// element by element, from the record's `file_versions` member: each
/// version's fields are the members of the same names.
pub proof fn lemma_decoded_digital_object_members(j: Json)
    requires
        j is Object,
        digital_object_from(j) is Some,
    ensures
        member(j, "file_versions"@) matches Some(Json::Array(items)) && {
            &&& items@.len() == digital_object_from(j)->0.file_versions.len()
            &&& forall|i: int| 0 <= i < items@.len() && (#[trigger] items@[i]) is Object
                ==> members_match_file_version(items@[i], digital_object_from(j)->0.file_versions[i])
        },
{
    let fvs = digital_object_from(j)->0.file_versions;
    if let Some(Json::Array(items)) = member(j, "file_versions"@) {
        assert forall|i: int| 0 <= i < items@.len() && (#[trigger] items@[i]) is Object
            implies members_match_file_version(items@[i], fvs[i]) by {
            assert(file_version_from(items@[i]) is Some);
            lemma_decoded_file_version_members(items@[i]);
        }
    }
}

impl DigitalObject {
    /// Reads a digital object from its JSON.
    pub fn from_json(v: &Json) -> (res: Option<Self>)
        ensures
            match res {
                Some(d) => digital_object_from(*v) == Some(d@),
                None => digital_object_from(*v) is None,
            },
    {
        match struct_field_exec(v, "file_versions", 0, 1) {
            Some(Some(x)) => {
                let file_versions = file_versions_from_json(x)?;
                Some(DigitalObject { file_versions })
            },
            _ => None,
        }
    }
}

/// A digital object together with the whole JSON record it came from: the
/// record is posted back whole, with only its file versions changed.
#[derive(Debug)]
pub struct DigitalObjectWrapper {
    pub digital_object: DigitalObject,
    pub object_json: Json,
}

/// `new_json` is the object `old_json` with its `file_versions` member set to
/// the JSON of `fvs`, and nothing else changed.
pub open spec fn sets_file_versions(old_json: Json, new_json: Json, fvs: Seq<FileVersionView>) -> bool {
    match (old_json, new_json) {
        (Json::Object(old_entries), Json::Object(new_entries)) => {
            &&& replaces_field(old_entries@, new_entries@, "file_versions"@)
            &&& field(new_entries@, "file_versions"@) matches Some(v) && is_file_versions_json(v, fvs)
        },
        _ => false,
    }
}

/// Writing file versions into a digital-object record and reading the record
/// back gives those versions.
pub proof fn lemma_written_record_reads_back(old_json: Json, new_json: Json, fvs: Seq<FileVersionView>)
    requires
        sets_file_versions(old_json, new_json, fvs),
    ensures
        digital_object_from(new_json) == Some(DigitalObjectView { file_versions: fvs }),
{
    if let Json::Object(new_entries) = new_json {
        let v = field(new_entries@, "file_versions"@)->0;
        lemma_file_versions_json_reads_back(v, fvs);
    }
}

/// Writing file versions into a digital-object record keeps every other
/// member of the record as it was.
pub proof fn lemma_other_members_kept(old_json: Json, new_json: Json, fvs: Seq<FileVersionView>, key: Seq<char>)
    requires
        sets_file_versions(old_json, new_json, fvs),
        key != "file_versions"@,
    ensures
        member(new_json, key) == member(old_json, key),
{
    if let (Json::Object(old_entries), Json::Object(new_entries)) = (old_json, new_json) {
        let o = old_entries@;
        let n = new_entries@;
        let p = field_pos(o, "file_versions"@);
        if exists|i: int| is_first_key(o, key, i) {
            let i = choose|i: int| is_first_key(o, key, i);
            assert(i != p);
            assert forall|j: int| 0 <= j < i implies (#[trigger] n[j]).0@ != key by {
                if j != p {
                    assert(n[j] == o[j]);
                }
            }
            assert(n[i] == o[i]);
            assert(is_first_key(n, key, i));
            lemma_first_key_unique(o, key, i);
            lemma_first_key_unique(n, key, i);
        } else {
            assert forall|i: int| !#[trigger] is_first_key(n, key, i) by {
                if is_first_key(n, key, i) {
                    assert(i != p);
                    if i < o.len() {
                        assert(n[i] == o[i]);
                        assert forall|j: int| 0 <= j < i implies (#[trigger] o[j]).0@ != key by {
                            if j != p {
                                assert(n[j] == o[j]);
                            } else {
                                assert(p < o.len());
                                assert(is_first_key(o, "file_versions"@, p));
                            }
                        }
                        assert(is_first_key(o, key, i));
                    }
                }
            }
        }
    }
}

impl DigitalObjectWrapper {
    /// The digital object is what the JSON record encodes.
    pub open spec fn wf(&self) -> bool {
        digital_object_from(self.object_json) == Some(self.digital_object@)
    }

    /// Reads the digital object from its JSON record and keeps the record;
    /// `InvalidDigitalObject` exactly when the record does not encode one.
    pub fn new(json_obj: Json) -> (res: Result<Self, AspaceError>)
        ensures
            match digital_object_from(json_obj) {
                Some(d) => res matches Ok(w) && w.digital_object@ == d && w.object_json == json_obj && w.wf(),
                None => res matches Err(e) && e == AspaceError::InvalidDigitalObject,
            },
    {
        match DigitalObject::from_json(&json_obj) {
            Some(digital_object) => Ok(DigitalObjectWrapper { digital_object, object_json: json_obj }),
            None => Err(AspaceError::InvalidDigitalObject),
        }
    }

    /// Appends a file version, and writes the new list of file versions into
    /// the record's `file_versions` member. The record must be an object
    /// (assigning a member of an array record panics in `serde_json`).
    pub fn add_file_version(&mut self, file_version: FileVersion)
        requires
            old(self).object_json is Object,
        ensures
            final(self).digital_object@.file_versions == old(self).digital_object@.file_versions.push(file_version@),
            sets_file_versions(old(self).object_json, final(self).object_json, final(self).digital_object@.file_versions),
            final(self).wf(),
            last_file_version(final(self).object_json) matches Some(v) && members_match_file_version(v, file_version@),
    {
        let ghost fv = file_version@;
        let ghost old_fvs = self.digital_object@.file_versions;
        self.digital_object.file_versions.push(file_version);
        assert(file_versions_view(self.digital_object.file_versions@) =~= old_fvs.push(fv));
        let versions = file_versions_to_json(&self.digital_object.file_versions);
        let ghost versions_ghost = versions;
        match &mut self.object_json {
            Json::Object(entries) => {
                set_field(entries, "file_versions", versions);
            },
            _ => {},
        }
        proof {
            let fvs = self.digital_object@.file_versions;
            lemma_file_versions_json_reads_back(versions_ghost, fvs);
            if let Json::Array(items) = versions_ghost {
                let k = items@.len() - 1;
                assert(is_file_version_json(items@[k], fvs[k]));
                lemma_file_version_json_members(items@[k], fvs[k]);
            }
        }
    }

    /// The JSON record.
    pub fn get_json(&self) -> (res: &Json)
        ensures
            *res == self.object_json,
    {
        &self.object_json
    }
}

// --- sessions

/// The HTTP header that carries the session token.
pub const SESSION_HEADER: &'static str = "X-ArchivesSpace-Session";

/// An HTTP header value of the `http` crate (re-exported by `reqwest`),
/// carried through opaquely.
#[verifier::external_type_specification]
#[verifier::external_body]
pub struct ExHeaderValue(reqwest::header::HeaderValue);

/// The `http` crate's refusal of a header value, carried through opaquely.
#[verifier::external_type_specification]
#[verifier::external_body]
pub struct ExInvalidHeaderValue(reqwest::header::InvalidHeaderValue);

/// A character that may stand in an HTTP header value: a tab, or any
/// character from the space up other than DEL. (The check is made on UTF-8
/// bytes; every byte of a non-ASCII character is at least 0x80.)
pub open spec fn is_header_value_char(c: char) -> bool {
    c == '\t' || (32 <= (c as u32) && (c as u32) != 127)
}

pub open spec fn is_header_value(s: Seq<char>) -> bool {
    forall|i: int| 0 <= i < s.len() ==> is_header_value_char(#[trigger] s[i])
}

/// The text that a header value holds (the characters whose UTF-8 bytes it
/// stores).
pub uninterp spec fn header_text(v: reqwest::header::HeaderValue) -> Seq<char>;

/// Calls `reqwest::header::HeaderValue::from_str`. Trusted: it succeeds
/// exactly when every byte of the text is a tab, or at least 32 and not 127,
/// and the value then holds the text (the crate copies its bytes).
#[verifier::external_body]
fn header_value_from_str(s: &str) -> (res: Result<reqwest::header::HeaderValue, reqwest::header::InvalidHeaderValue>)
    ensures
        res is Ok <==> is_header_value(s@),
        res matches Ok(v) ==> header_text(v) == s@,
{
    reqwest::header::HeaderValue::from_str(s)
}

/// An ArchivesSpace session token.
#[derive(Debug)]
pub struct SessionShared {
    session: String,
}

impl View for SessionShared {
    type V = Seq<char>;

    closed spec fn view(&self) -> Seq<char> {
        self.session@
    }
}

/// The session token in the login answer.
pub open spec fn session_from(v: Json) -> Option<Seq<char>> {
    required_string(struct_field(v, "session"@, 0, 1))
}

impl SessionShared {
    /// Reads the session token from the login answer; `InvalidSession`
    /// exactly when the answer carries none.
    pub fn from_login_response(v: &Json) -> (res: Result<Self, AspaceError>)
        ensures
            match session_from(*v) {
                Some(s) => res matches Ok(t) && t@ == s,
                None => res == Err::<Self, AspaceError>(AspaceError::InvalidSession),
            },
    {
        match required_string_exec(struct_field_exec(v, "session", 0, 1)) {
            Some(session) => Ok(SessionShared { session }),
            None => Err(AspaceError::InvalidSession),
        }
    }

    /// The token as the value of the session header; `InvalidHeaderValue`
    /// exactly when the token holds a character that a header cannot.
    pub fn header_value(&self) -> (res: Result<reqwest::header::HeaderValue, AspaceError>)
        ensures
            res is Ok <==> is_header_value(self@),
            res matches Ok(v) ==> header_text(v) == self@,
            res matches Err(e) ==> e == AspaceError::InvalidHeaderValue,
    {
        match header_value_from_str(self.session.as_str()) {
            Ok(v) => Ok(v),
            Err(_) => Err(AspaceError::InvalidHeaderValue),
        }
    }

    /// The token, for the authentication header of later requests.
    pub fn session(&self) -> (res: &str)
        ensures
            res@ == self@,
    {
        self.session.as_str()
    }
}

/// What the pipeline holds between API calls.
#[derive(Debug)]
pub enum ArchivesSpaceData {
    ArchivalObject(ArchivalObject),
    DigitalObject(DigitalObjectWrapper),
}

pub enum ArchivesSpaceDataView {
    ArchivalObject(ArchivalObjectView),
    DigitalObject(DigitalObjectView, Json),
}

impl View for ArchivesSpaceData {
    type V = ArchivesSpaceDataView;

    open spec fn view(&self) -> ArchivesSpaceDataView {
        match self {
            ArchivesSpaceData::ArchivalObject(a) => ArchivesSpaceDataView::ArchivalObject(a@),
            ArchivesSpaceData::DigitalObject(w) => ArchivesSpaceDataView::DigitalObject(w.digital_object@, w.object_json),
        }
    }
}

} // verus!
