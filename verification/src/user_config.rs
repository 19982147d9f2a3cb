//! The portal users: one account per client address.

use std::collections::HashMap;

use vstd::prelude::*;

use crate::ip::{ip_text, push_ip_text};
use crate::numtext::{decimal, lemma_decimal_injective, push_decimal};
use crate::read_config::{ConfigData, ConfigView};
use crate::text::{push_all, push_str, string_of, chars_of};

verus! {

/// One portal user: its index, account, password and the portal's
/// `host:port`.
#[derive(Debug)]
pub struct UserConfig {
    pub index: usize,
    pub username: String,
    pub password: String,
    pub host2: String,
}

pub struct UserView {
    pub index: usize,
    pub username: Seq<char>,
    pub password: Seq<char>,
    pub host2: Seq<char>,
}

impl View for UserConfig {
    type V = UserView;

    open spec fn view(&self) -> UserView {
        UserView {
            index: self.index,
            username: self.username@,
            password: self.password@,
            host2: self.host2@,
        }
    }
}

/// The user with index `index`: account the user head followed by the
/// decimal number `portal_user_tail + index`, the shared password, and the
/// portal address and port as `address:port`.
pub open spec fn user_of(c: ConfigView, index: usize) -> UserView {
    UserView {
        index,
        username: c.portal_user_head + decimal((c.portal_user_tail + index) as nat),
        password: c.all_password,
        host2: ip_text(c.portal_ip) + ":"@ + decimal(c.port as nat),
    }
}

/// The account numbers of all users fit a `usize`.
pub open spec fn users_fit(c: ConfigView) -> bool {
    c.portal_user_num == 0 || c.portal_user_tail + c.portal_user_num - 1 <= usize::MAX
}

/// Whether the account numbers of all users of `portal_config` fit a `usize`.
pub fn users_fit_in(portal_config: &ConfigData) -> (r: bool)
    ensures
        r == users_fit(portal_config@),
{
    portal_config.portal_user_num == 0 || portal_config.portal_user_tail <= usize::MAX - (
    portal_config.portal_user_num - 1)
}

impl UserConfig {
    /// The users of a configuration, by index: one for each index below
    /// `portal_user_num`.
    pub fn new(portal_config: &ConfigData) -> (r: HashMap<usize, UserConfig>)
        requires
            users_fit(portal_config@),
        ensures
            forall|i: usize| #[trigger] r@.contains_key(i) <==> i < portal_config.portal_user_num,
            forall|i: usize|
                i < portal_config.portal_user_num ==> #[trigger] r@[i]@ == user_of(
                    portal_config@,
                    i,
                ),
    {
        let mut user_config_hash_map: HashMap<usize, UserConfig> = HashMap::new();
        let mut host: Vec<char> = Vec::new();
        push_ip_text(&mut host, portal_config.portal_ip);
        push_str(&mut host, ":");
        push_decimal(&mut host, portal_config.port as u64);
        let head = chars_of(portal_config.portal_user_head.as_str());
        let n = portal_config.portal_user_num;
        let mut index: usize = 0;
        while index < n
            invariant
                index <= n,
                n == portal_config.portal_user_num,
                users_fit(portal_config@),
                head@ == portal_config.portal_user_head@,
                host@ == ip_text(portal_config.portal_ip@) + ":"@ + decimal(portal_config.port as nat),
                forall|i: usize| #[trigger] user_config_hash_map@.contains_key(i) <==> i < index,
                forall|i: usize|
                    i < index ==> #[trigger] user_config_hash_map@[i]@ == user_of(
                        portal_config@,
                        i,
                    ),
            decreases n - index,
        {
            let mut name = head.clone();
            push_decimal(&mut name, (portal_config.portal_user_tail + index) as u64);
            let user_config = UserConfig {
                index,
                username: string_of(&name),
                password: portal_config.all_password.clone(),
                host2: string_of(&host),
            };
            assert(user_config@ == user_of(portal_config@, index));
            user_config_hash_map.insert(index, user_config);
            index += 1;
        }
        user_config_hash_map
    }
}


/// Different users of one configuration have different accounts.
pub proof fn lemma_accounts_distinct(c: ConfigView, i: usize, j: usize)
    requires
        users_fit(c),
        i < c.portal_user_num,
        j < c.portal_user_num,
        i != j,
    ensures
        user_of(c, i).username != user_of(c, j).username,
{
    let h = c.portal_user_head;
    let a = decimal((c.portal_user_tail + i) as nat);
    let b = decimal((c.portal_user_tail + j) as nat);
    if h + a == h + b {
        assert((h + a).skip(h.len() as int) =~= a);
        assert((h + b).skip(h.len() as int) =~= b);
        lemma_decimal_injective((c.portal_user_tail + i) as nat, (c.portal_user_tail + j) as nat);
    }
}

} // verus!
