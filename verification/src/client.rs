//! The anonymous device identity kept in `client.json`.
use vstd::prelude::*;

use crate::text::{join_path, path_join, trim, trim_seq};

verus! {

#[derive(Debug, Clone, Default)]
pub struct ClientConfig {
    pub device_id: String,
}

/// `<app dir>/client.json`.
pub fn client_path(app_dir: &str) -> (r: String)
    ensures
        r@ == path_join(app_dir@, "client.json"@),
{
    join_path(app_dir, "client.json")
}

pub open spec fn is_lower_hex(c: char) -> bool {
    ('0' <= c && c <= '9') || ('a' <= c && c <= 'f')
}

/// A fresh random version-4 UUID in its simple form.
pub open spec fn simple_uuid_v4(s: Seq<char>) -> bool {
    &&& s.len() == 32
    &&& forall|i: int| 0 <= i < 32 ==> is_lower_hex(#[trigger] s[i])
    &&& s[12] == '4'
    &&& (s[16] == '8' || s[16] == '9' || s[16] == 'a' || s[16] == 'b')
}

/// `uuid::Uuid::new_v4().simple().to_string()`: 32 lower-case hex digits
/// with the version digit `4` and the RFC 4122 variant, the rest random.
/// It panics when the system has no source of randomness.
#[verifier::external_body]
fn fresh_device_id() -> (r: String)
    ensures
        simple_uuid_v4(r@),
{
    uuid::Uuid::new_v4().simple().to_string()
}

/// Whether a configuration read from `client.json` lacks a device id (it is
/// then generated and the file written).
pub fn needs_device_id(cfg: &ClientConfig) -> (r: bool)
    ensures
        r == (trim_seq(cfg.device_id@).len() == 0),
{
    let t = trim(cfg.device_id.as_str());
    t.as_str().is_empty()
}

/// The configuration completed with `fresh_id` when it lacks a device id;
/// also says whether it changed.
pub fn with_device_id(cfg: ClientConfig, fresh_id: String) -> (r: (ClientConfig, bool))
    ensures
        r.1 == (trim_seq(cfg.device_id@).len() == 0),
        r.1 ==> r.0.device_id == fresh_id,
        !r.1 ==> r.0.device_id == cfg.device_id,
{
    if needs_device_id(&cfg) {
        (ClientConfig { device_id: fresh_id }, true)
    } else {
        (cfg, false)
    }
}

/// The configuration as read, completed with a fresh device id when it has
/// none; also says whether it has to be written back.
pub fn complete_client_config(cfg: ClientConfig) -> (r: (ClientConfig, bool))
    ensures
        r.1 == (trim_seq(cfg.device_id@).len() == 0),
        r.1 ==> simple_uuid_v4(r.0.device_id@),
        !r.1 ==> r.0.device_id == cfg.device_id,
{
    if needs_device_id(&cfg) {
        (ClientConfig { device_id: fresh_device_id() }, true)
    } else {
        (cfg, false)
    }
}

} // verus!
