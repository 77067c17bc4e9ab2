//! The messages to which web storage answers.

use vstd::prelude::*;

use crate::webstorage::engine::{WebStorageEngine, WebStorageEngineFactory, WebStorageType};
use crate::webstorage::manager::{Answered, SetAnswer, WebStorageManager};
use crate::webstorage::origins::OriginDescriptor;
use crate::webstorage::session_clone::CloneFailures;
use crate::webstorage::site_data::SiteClearing;

verus! {

/// What is asked of web storage.
#[derive(Debug)]
pub enum WebStorageThreadMsg {
    /// The number of items.
    Length { storage_type: WebStorageType, webview: u64, origin: String },
    /// The key at a place.
    Key { storage_type: WebStorageType, webview: u64, origin: String, index: u32 },
    /// All keys.
    Keys { storage_type: WebStorageType, webview: u64, origin: String },
    /// The value of a key.
    GetItem { storage_type: WebStorageType, webview: u64, origin: String, name: String },
    /// Sets the value of a key.
    SetItem {
        storage_type: WebStorageType,
        webview: u64,
        origin: String,
        name: String,
        value: String,
    },
    /// Takes an item out.
    RemoveItem { storage_type: WebStorageType, webview: u64, origin: String, name: String },
    /// Takes every item out.
    Clear { storage_type: WebStorageType, webview: u64, origin: String },
    /// Copies the session storage of a webview to another.
    Clone { src: u64, dest: u64 },
    /// The origins of a kind of storage.
    ListOrigins { storage_type: WebStorageType },
    /// Clears the data of sites. `domains` holds the registered domain of each listed origin, if it
    /// has one.
    ClearDataForSites {
        storage_type: WebStorageType,
        sites: Vec<String>,
        domains: Vec<Option<String>>,
    },
    /// Ends the work.
    Exit,
}

/// What a message is answered with.
#[derive(Debug)]
pub enum WebStorageReply {
    Length(Answered<usize>),
    Key(Answered<Option<String>>),
    Keys(Answered<Vec<String>>),
    Item(Answered<Option<String>>),
    Stored(Answered<SetAnswer>),
    Removed(Answered<Option<String>>),
    Cleared(Answered<bool>),
    Cloned(CloneFailures),
    Origins(Vec<OriginDescriptor>),
    SitesCleared(SiteClearing),
    /// No message is taken any more.
    Stopped,
}

impl<E: WebStorageEngine, F: WebStorageEngineFactory<E>> WebStorageManager<E, F> {
    /// The message fits the state: it comes with a domain for each listed origin.
    pub open spec fn can_take(&self, message: WebStorageThreadMsg) -> bool {
        match message {
            WebStorageThreadMsg::ClearDataForSites { storage_type, sites, domains } => {
                domains@.len() == match storage_type {
                    WebStorageType::Session => {
                        self.session_storage_origins.origin_descriptors@.len()
                    },
                    WebStorageType::Local => self.local_storage_origins.origin_descriptors@.len(),
                }
            },
            _ => true,
        }
    }

    /// Answers a message.
    pub fn handle(&mut self, message: WebStorageThreadMsg) -> (reply: WebStorageReply)
        requires
            old(self).wf(),
            old(self).can_take(message),
        ensures
            final(self).wf(),
            match message {
                WebStorageThreadMsg::Length { storage_type, webview, origin } => {
                    reply matches WebStorageReply::Length(answer) && final(self).length_read(
                        &*old(self),
                        storage_type,
                        webview,
                        origin@,
                        answer,
                    )
                },
                WebStorageThreadMsg::Key { storage_type, webview, origin, index } => {
                    reply matches WebStorageReply::Key(answer) && final(self).key_read(
                        &*old(self),
                        storage_type,
                        webview,
                        origin@,
                        index,
                        answer,
                    )
                },
                WebStorageThreadMsg::Keys { storage_type, webview, origin } => {
                    reply matches WebStorageReply::Keys(answer) && final(self).keys_read(
                        &*old(self),
                        storage_type,
                        webview,
                        origin@,
                        answer,
                    )
                },
                WebStorageThreadMsg::GetItem { storage_type, webview, origin, name } => {
                    reply matches WebStorageReply::Item(answer) && final(self).item_read(
                        &*old(self),
                        storage_type,
                        webview,
                        origin@,
                        name@,
                        answer,
                    )
                },
                WebStorageThreadMsg::SetItem { storage_type, webview, origin, name, value } => {
                    reply matches WebStorageReply::Stored(answer) && final(self).item_set(
                        &*old(self),
                        storage_type,
                        webview,
                        origin@,
                        name@,
                        value@,
                        answer,
                    )
                },
                WebStorageThreadMsg::RemoveItem { storage_type, webview, origin, name } => {
                    reply matches WebStorageReply::Removed(answer) && final(self).item_removed(
                        &*old(self),
                        storage_type,
                        webview,
                        origin@,
                        name@,
                        answer,
                    )
                },
                WebStorageThreadMsg::Clear { storage_type, webview, origin } => {
                    reply matches WebStorageReply::Cleared(answer) && final(self).items_cleared(
                        &*old(self),
                        storage_type,
                        webview,
                        origin@,
                        answer,
                    )
                },
                WebStorageThreadMsg::Clone { src, dest } => {
                    reply matches WebStorageReply::Cloned(failures) && final(self).session_cloned(
                        &*old(self),
                        src,
                        dest,
                        failures,
                    )
                },
                WebStorageThreadMsg::ListOrigins { storage_type } => {
                    &&& *final(self) == *old(self)
                    &&& reply matches WebStorageReply::Origins(descriptors) && descriptors@
                        == match storage_type {
                        WebStorageType::Session => {
                            old(self).session_storage_origins.origin_descriptors@
                        },
                        WebStorageType::Local => {
                            old(self).local_storage_origins.origin_descriptors@
                        },
                    }
                },
                WebStorageThreadMsg::ClearDataForSites { storage_type, sites, domains } => {
                    reply matches WebStorageReply::SitesCleared(clearing) && match storage_type {
                        WebStorageType::Session => final(self).session_sites_cleared(
                            &*old(self),
                            clearing,
                            sites@,
                            domains@,
                        ),
                        WebStorageType::Local => final(self).local_sites_cleared(
                            &*old(self),
                            clearing,
                            sites@,
                            domains@,
                        ),
                    }
                },
                WebStorageThreadMsg::Exit => reply is Stopped && *final(self) == *old(self),
            },
    {
        match message {
            WebStorageThreadMsg::Length { storage_type, webview, origin } => {
                WebStorageReply::Length(self.length(storage_type, webview, &origin))
            },
            WebStorageThreadMsg::Key { storage_type, webview, origin, index } => {
                WebStorageReply::Key(self.key(storage_type, webview, &origin, index))
            },
            WebStorageThreadMsg::Keys { storage_type, webview, origin } => {
                WebStorageReply::Keys(self.keys(storage_type, webview, &origin))
            },
            WebStorageThreadMsg::GetItem { storage_type, webview, origin, name } => {
                WebStorageReply::Item(self.request_item(storage_type, webview, &origin, &name))
            },
            WebStorageThreadMsg::SetItem { storage_type, webview, origin, name, value } => {
                WebStorageReply::Stored(self.set_item(storage_type, webview, &origin, name, value))
            },
            WebStorageThreadMsg::RemoveItem { storage_type, webview, origin, name } => {
                WebStorageReply::Removed(self.remove_item(storage_type, webview, &origin, &name))
            },
            WebStorageThreadMsg::Clear { storage_type, webview, origin } => {
                WebStorageReply::Cleared(self.clear(storage_type, webview, &origin))
            },
            WebStorageThreadMsg::Clone { src, dest } => {
                WebStorageReply::Cloned(self.clone(src, dest))
            },
            WebStorageThreadMsg::ListOrigins { storage_type } => {
                WebStorageReply::Origins(self.origin_descriptors(storage_type))
            },
            WebStorageThreadMsg::ClearDataForSites { storage_type, sites, domains } => {
                WebStorageReply::SitesCleared(
                    self.clear_data_for_sites(storage_type, &sites, &domains),
                )
            },
            WebStorageThreadMsg::Exit => WebStorageReply::Stopped,
        }
    }
}

} // verus!
