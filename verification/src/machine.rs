//! Machine records: the persisted SSH targets that everything else works on.

use vstd::prelude::*;
use crate::text::{is_dash, owned};

verus! {

/// Placeholder stored in a field that has no value.
pub const NOT_EXIST: &'static str = "-";

/// The placeholder `"-"` as characters.
pub open spec fn dash() -> Seq<char> {
    seq!['-']
}

/// A field counts as empty when it holds nothing or only the placeholder.
pub open spec fn empty_field(s: Seq<char>) -> bool {
    s.len() == 0 || s == dash()
}

/// A field as shown to the user: the placeholder `"-"` when it is empty.
pub open spec fn shown_field(s: Seq<char>) -> Seq<char> {
    if empty_field(s) { dash() } else { s }
}

/// A copy of the field `s`, or `"-"` when it is empty.
pub(crate) fn shown_value(s: &String) -> (r: String)
    ensures
        r@ == shown_field(s@),
{
    if Machine::is_empty_field(s.as_str()) {
        let r = owned("-");
        proof { reveal_strlit("-"); }
        assert(r@ =~= dash());
        r
    } else {
        s.clone()
    }
}

/// One persisted SSH target.
#[derive(Debug, Clone)]
pub struct Machine {
    pub id: i64,
    pub num: i32,
    pub nat_ip: String,
    pub ip: String,
    pub username: String,
    pub password: String,
    pub port: i32,
    pub private_key_path: String,
    pub device: String,
    pub remark: String,
}

impl Machine {
    /// The login target: the NAT address when one is set, the IP otherwise.
    pub open spec fn target(&self) -> Seq<char> {
        if empty_field(self.nat_ip@) {
            self.ip@
        } else {
            self.nat_ip@
        }
    }

    /// Address used for SSH login and probing.
    pub fn effective_host(&self) -> (r: &str)
        ensures
            r@ == self.target(),
    {
        if !self.nat_ip.as_str().is_empty() && !is_dash(self.nat_ip.as_str()) {
            self.nat_ip.as_str()
        } else {
            self.ip.as_str()
        }
    }

    /// A field-by-field copy of this machine.
    pub fn duplicate(&self) -> (r: Machine)
        ensures
            r == *self,
    {
        Machine {
            id: self.id,
            num: self.num,
            nat_ip: self.nat_ip.clone(),
            ip: self.ip.clone(),
            username: self.username.clone(),
            password: self.password.clone(),
            port: self.port,
            private_key_path: self.private_key_path.clone(),
            device: self.device.clone(),
            remark: self.remark.clone(),
        }
    }

    /// True when `s` is empty or the placeholder `"-"`.
    pub fn is_empty_field(s: &str) -> (r: bool)
        ensures
            r == empty_field(s@),
    {
        s.is_empty() || is_dash(s)
    }
}

} // verus!
