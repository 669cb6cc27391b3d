//! What a deployment is started with.

use crate::keys::{Keys, KeyView};
use vstd::prelude::*;

verus! {

#[derive(Debug)]
pub struct Configs {
    /// The address under which the service is reached from outside.
    pub url: String,
    pub database: String,
    /// Seconds an upload is kept where the request names no expiry.
    pub retention: i64,
    /// Reads an upload allows where the request names neither reads nor expiry.
    pub reads: i64,
    /// Links carry no unlock key: the link id alone gives access.
    pub ignore_link_key: bool,
    /// Payloads are sealed before they reach the object store.
    pub encrypt_data: bool,
    pub collection_uploads: String,
    pub collection_admin: String,
    pub collection_users: String,
    pub gcs_bucket: String,
    pub keys: Keys,
}

pub struct ConfigsView {
    pub url: Seq<char>,
    pub database: Seq<char>,
    pub retention: i64,
    pub reads: i64,
    pub ignore_link_key: bool,
    pub encrypt_data: bool,
    pub collection_uploads: Seq<char>,
    pub collection_admin: Seq<char>,
    pub collection_users: Seq<char>,
    pub gcs_bucket: Seq<char>,
    pub keys: Seq<KeyView>,
}

impl View for Configs {
    type V = ConfigsView;

    open spec fn view(&self) -> ConfigsView {
        ConfigsView {
            url: self.url@,
            database: self.database@,
            retention: self.retention,
            reads: self.reads,
            ignore_link_key: self.ignore_link_key,
            encrypt_data: self.encrypt_data,
            collection_uploads: self.collection_uploads@,
            collection_admin: self.collection_admin@,
            collection_users: self.collection_users@,
            gcs_bucket: self.gcs_bucket@,
            keys: self.keys@,
        }
    }
}

impl Clone for Configs {
    fn clone(&self) -> (res: Self)
        ensures
            res@ == self@,
    {
        Configs {
            url: self.url.clone(),
            database: self.database.clone(),
            retention: self.retention,
            reads: self.reads,
            ignore_link_key: self.ignore_link_key,
            encrypt_data: self.encrypt_data,
            collection_uploads: self.collection_uploads.clone(),
            collection_admin: self.collection_admin.clone(),
            collection_users: self.collection_users.clone(),
            gcs_bucket: self.gcs_bucket.clone(),
            keys: self.keys.clone(),
        }
    }
}

} // verus!
