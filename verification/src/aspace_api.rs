//! The update of an ArchivesSpace digital object for a new Hyrax resource,
//! as a state machine driven by the program that talks to the API: it asks
//! where to send each request and hands back each answer.
use vstd::prelude::*;
use crate::aspace_objects::{ArchivesSpaceRecordId, RecordIdView, ArchivesSpaceData, ArchivesSpaceDataView, ArchivalObject, DigitalObjectWrapper, FileVersion, archival_object_from, digital_object_from, record_id_for, digital_object_ref_of, digital_record_id, new_file_version, sets_file_versions, is_url_error, last_file_version,
    members_match_file_version, has_string_member};
use crate::error::AspaceError;
use crate::fedora_api::FedoraResource;
use crate::json::{Json, member, element};

verus! {

/// The state of one update: the record to ask for next, the Hyrax resource to
/// link, and the record last received.
#[derive(Debug)]
pub struct ArchivesSpaceUpdate {
    pub base_url: String,
    pub object_id: ArchivesSpaceRecordId,
    pub hyrax_ref: String,
    pub object: Option<ArchivesSpaceData>,
}

pub open spec fn opt_data_view(o: Option<ArchivesSpaceData>) -> Option<ArchivesSpaceDataView> {
    match o {
        Some(d) => Some(d@),
        None => None,
    }
}

/// The archival object that a ref-id query resolves to:
/// `answer["archival_objects"][0]["_resolve"]`.
pub open spec fn resolved_archival_object(answer: Json) -> Option<Json> {
    match member(answer, "archival_objects"@) {
        Some(list) => match element(list, 0) {
            Some(first) => member(first, "_resolve"@),
            None => None,
        },
        None => None,
    }
}

/// What the answer to the request for `id` holds.
pub open spec fn received_object(id: RecordIdView, answer: Json) -> Result<ArchivesSpaceDataView, AspaceError> {
    match id {
        RecordIdView::ArchivalObjectRefId(_) => match resolved_archival_object(answer) {
            Some(record) => match archival_object_from(record) {
                Some(a) => Ok(ArchivesSpaceDataView::ArchivalObject(a)),
                None => Err(AspaceError::InvalidArchivalObject),
            },
            None => Err(AspaceError::ArchivalObjectNotFound),
        },
        RecordIdView::ArchivalObjectURI(_) => match archival_object_from(answer) {
            Some(a) => Ok(ArchivesSpaceDataView::ArchivalObject(a)),
            None => Err(AspaceError::InvalidArchivalObject),
        },
        RecordIdView::DigitalObjectURI(_) => match digital_object_from(answer) {
            Some(d) => Ok(ArchivesSpaceDataView::DigitalObject(d, answer)),
            None => Err(AspaceError::InvalidDigitalObject),
        },
    }
}

fn resolve_archival_object(answer: &Json) -> (res: Option<&Json>)
    ensures
        match res {
            Some(r) => resolved_archival_object(*answer) == Some(*r),
            None => resolved_archival_object(*answer) is None,
        },
{
    match answer.get("archival_objects") {
        Some(list) => match list.get_index(0) {
            Some(first) => first.get("_resolve"),
            None => None,
        },
        None => None,
    }
}

impl ArchivesSpaceUpdate {
    /// A digital object in the pipeline matches its record.
    pub open spec fn wf(&self) -> bool {
        self.object matches Some(ArchivesSpaceData::DigitalObject(w)) ==> w.wf()
    }

    /// The same update, with the object reference changed at most.
    pub open spec fn same_but_id(&self, other: &Self) -> bool {
        &&& self.base_url == other.base_url
        &&& self.hyrax_ref == other.hyrax_ref
        &&& self.object == other.object
    }

    /// Starts the update for a Fedora resource: nothing received yet, the
    /// archival object to ask for first. `InvalidUrl`, with the URL parser's
    /// error, exactly when its URL cannot be formed.
    pub fn new(base_url: &str, resource: &FedoraResource) -> (res: Result<Self, AspaceError>)
        ensures
            match record_id_for(resource@, base_url@) {
                Ok(id) => res matches Ok(u) && {
                    &&& u.object_id@ == id
                    &&& u.base_url@ == base_url@
                    &&& u.hyrax_ref@ == resource.uri@
                    &&& u.object is None
                    &&& u.wf()
                },
                Err(t) => res matches Err(e) && is_url_error(e, t),
            },
    {
        let id = ArchivesSpaceRecordId::from_fedora_resource(resource, base_url)?;
        Ok(ArchivesSpaceUpdate {
            base_url: base_url.to_owned(),
            object_id: id,
            hyrax_ref: resource.uri.clone(),
            object: None,
        })
    }

    /// The URL of the record to ask for.
    pub fn object_url(&self) -> (res: String)
        ensures
            res@ == self.object_id@.url(),
    {
        self.object_id.url()
    }

    /// Takes in the answer to the request for the current record: an
    /// archival object (resolved from the query answer when it was asked for
    /// by ref_id) or a digital object with its whole record. On error nothing
    /// changes.
    pub fn get_object(&mut self, answer: Json) -> (res: Result<(), AspaceError>)
        ensures
            match received_object(old(self).object_id@, answer) {
                Ok(d) => {
                    &&& res is Ok
                    &&& final(self).wf()
                    &&& opt_data_view(final(self).object) == Some(d)
                    &&& final(self).object_id == old(self).object_id
                    &&& final(self).base_url == old(self).base_url
                    &&& final(self).hyrax_ref == old(self).hyrax_ref
                },
                Err(e) => res == Err::<(), AspaceError>(e) && *final(self) == *old(self),
            },
    {
        let obj = match &self.object_id {
            ArchivesSpaceRecordId::ArchivalObjectRefId(_) => {
                let record = match resolve_archival_object(&answer) {
                    Some(r) => r,
                    None => return Err(AspaceError::ArchivalObjectNotFound),
                };
                match ArchivalObject::from_json(record) {
                    Some(a) => ArchivesSpaceData::ArchivalObject(a),
                    None => return Err(AspaceError::InvalidArchivalObject),
                }
            },
            ArchivesSpaceRecordId::ArchivalObjectURI(_) => {
                match ArchivalObject::from_json(&answer) {
                    Some(a) => ArchivesSpaceData::ArchivalObject(a),
                    None => return Err(AspaceError::InvalidArchivalObject),
                }
            },
            ArchivesSpaceRecordId::DigitalObjectURI(_) => {
                ArchivesSpaceData::DigitalObject(DigitalObjectWrapper::new(answer)?)
            },
        };
        self.object = Some(obj);
        Ok(())
    }

    /// Points the update at the digital object that the received archival
    /// object refers to. Fails with `NoDigitalObjectRef` when it refers to
    /// none, and with `InvalidUrl` (the URL parser's error) when the link
    /// gives no URL; does nothing
    /// when no archival object was received.
    pub fn extract_digital_object_ref(&mut self) -> (res: Result<(), AspaceError>)
        ensures
            match opt_data_view(old(self).object) {
                Some(ArchivesSpaceDataView::ArchivalObject(a)) => match digital_object_ref_of(a) {
                    Some(link) => match digital_record_id(link, old(self).base_url@) {
                        Ok(id) => res is Ok && final(self).object_id@ == id && final(self).same_but_id(old(self)),
                        Err(t) => res matches Err(e) && is_url_error(e, t) && *final(self) == *old(self),
                    },
                    None => res == Err::<(), AspaceError>(AspaceError::NoDigitalObjectRef) && *final(self) == *old(self),
                },
                _ => res is Ok && *final(self) == *old(self),
            },
    {
        let link = match &self.object {
            Some(ArchivesSpaceData::ArchivalObject(obj)) => match obj.extract_digital_object_ref() {
                Some(link) => link,
                None => return Err(AspaceError::NoDigitalObjectRef),
            },
            _ => return Ok(()),
        };
        let id = ArchivesSpaceRecordId::from_digital_object_ref(link.as_str(), self.base_url.as_str())?;
        self.object_id = id;
        Ok(())
    }

    /// Adds to the received digital object a file version that points to the
    /// Hyrax resource; the record is then ready to be posted back (see
    /// `update_request`). `NoDigitalObjectToUpdate` when no digital object was
    /// received.
    pub fn update_digital_object(&mut self) -> (res: Result<(), AspaceError>)
        requires
            old(self).object matches Some(ArchivesSpaceData::DigitalObject(w)) ==> w.object_json is Object,
        ensures
            match old(self).object {
                Some(ArchivesSpaceData::DigitalObject(w)) => {
                    &&& res is Ok
                    &&& final(self).wf()
                    &&& final(self).object_id == old(self).object_id
                    &&& final(self).base_url == old(self).base_url
                    &&& final(self).hyrax_ref == old(self).hyrax_ref
                    &&& final(self).object matches Some(ArchivesSpaceData::DigitalObject(w2)) && {
                        &&& w2.digital_object@.file_versions
                            == w.digital_object@.file_versions.push(new_file_version(old(self).hyrax_ref@))
                        &&& sets_file_versions(w.object_json, w2.object_json, w2.digital_object@.file_versions)
                        &&& last_file_version(w2.object_json) matches Some(v) && {
                            &&& members_match_file_version(v, new_file_version(old(self).hyrax_ref@))
                            &&& has_string_member(v, "file_uri"@, old(self).hyrax_ref@)
                            &&& member(v, "publish"@) == Some(Json::Bool(true))
                            &&& member(v, "is_representative"@) == Some(Json::Bool(false))
                        }
                    }
                },
                _ => res == Err::<(), AspaceError>(AspaceError::NoDigitalObjectToUpdate) && *final(self) == *old(self),
            },
    {
        match &mut self.object {
            Some(ArchivesSpaceData::DigitalObject(obj)) => {
                let file_version = FileVersion::new(self.hyrax_ref.as_str());
                obj.add_file_version(file_version);
                Ok(())
            },
            _ => Err(AspaceError::NoDigitalObjectToUpdate),
        }
    }

    /// The request that posts the digital object back: its URL and its
    /// record, when a digital object was received.
    pub fn update_request(&self) -> (res: Option<(String, &Json)>)
        ensures
            match self.object {
                Some(ArchivesSpaceData::DigitalObject(w)) => res matches Some(r) && r.0@ == self.object_id@.url()
                    && *r.1 == w.object_json,
                _ => res is None,
            },
    {
        match &self.object {
            Some(ArchivesSpaceData::DigitalObject(obj)) => Some((self.object_id.url(), obj.get_json())),
            _ => None,
        }
    }
}

} // verus!
