//! The virtual interfaces of the clients: one macvlan interface per user,
//! each with its own MAC address, IP address and default route.

use vstd::prelude::*;

use crate::boundary::{lossy_text, utf8_lossy};
use crate::ip::{
    cidr_of, ip_range, ip_range_ok, ip_text, iterate_ips, mask_to_cidr, push_ip_text, IpAddress,
    IpView, addr_views,
};
use crate::numtext::{
    decimal, hex_lower, lemma_decimal_injective, push_decimal, push_hex_padded, zero_pad,
};
use crate::ip_parse::{lemma_hex_run, lemma_leading_zeros_value, run_value};
use crate::read_config::{ConfigData, ConfigView};
use crate::text::{chars_of, contains, contains_seq, push_all, push_str, string_of, views};

verus! {

/// The settings of the interfaces to create or delete.
#[derive(Debug)]
pub struct InterfaceManager {
    pub parent_interface: String,
    pub base_name: String,
    pub base_mac: String,
    pub start_ip: IpAddress,
    pub mask: IpAddress,
    pub gw: IpAddress,
    pub interface_count: usize,
    pub mac_layout: MacLayout,
}

/// How the MAC address of an interface is made from the MAC header and the
/// interface's number.
#[derive(Clone, Copy, Debug, PartialEq, Eq)]
pub enum MacLayout {
    /// The header, then the number in six lower-case hexadecimal digits.
    HeaderSixDigits,
    /// `00`, the header, then the number in four lower-case hexadecimal digits.
    ZeroHeaderFourDigits,
}

pub struct ManagerView {
    pub parent_interface: Seq<char>,
    pub base_name: Seq<char>,
    pub base_mac: Seq<char>,
    pub start_ip: IpView,
    pub mask: IpView,
    pub gw: IpView,
    pub interface_count: usize,
    pub mac_layout: MacLayout,
}

impl View for InterfaceManager {
    type V = ManagerView;

    open spec fn view(&self) -> ManagerView {
        ManagerView {
            parent_interface: self.parent_interface@,
            base_name: self.base_name@,
            base_mac: self.base_mac@,
            start_ip: self.start_ip@,
            mask: self.mask@,
            gw: self.gw@,
            interface_count: self.interface_count,
            mac_layout: self.mac_layout,
        }
    }
}

/// What the `crate_iface` setting asks for.
#[derive(Clone, Copy, Debug, PartialEq, Eq)]
pub enum InterfacePlan {
    Create,
    Delete,
    Invalid,
}

pub open spec fn plan_of(crate_iface: i8) -> InterfacePlan {
    if crate_iface == 1 {
        InterfacePlan::Create
    } else if crate_iface == 0 {
        InterfacePlan::Delete
    } else {
        InterfacePlan::Invalid
    }
}

/// The code that setting up the interfaces reports: 1 created, 0 deleted,
/// -1 an invalid setting.
pub open spec fn plan_code(p: InterfacePlan) -> i8 {
    match p {
        InterfacePlan::Create => 1,
        InterfacePlan::Delete => 0,
        InterfacePlan::Invalid => -1i8,
    }
}

impl InterfacePlan {
    /// `1` creates the interfaces, `0` deletes them, any other value is invalid.
    pub fn from_setting(crate_iface: i8) -> (r: InterfacePlan)
        ensures
            r == plan_of(crate_iface),
    {
        if crate_iface == 1 {
            InterfacePlan::Create
        } else if crate_iface == 0 {
            InterfacePlan::Delete
        } else {
            InterfacePlan::Invalid
        }
    }

    pub fn code(&self) -> (r: i8)
        ensures
            r == plan_code(*self),
    {
        match self {
            InterfacePlan::Create => 1,
            InterfacePlan::Delete => 0,
            InterfacePlan::Invalid => -1,
        }
    }
}

/// The name of interface `i`: the parent's name, a dot, and `i`.
pub open spec fn interface_name(m: ManagerView, i: nat) -> Seq<char> {
    m.base_name + decimal(i)
}

/// Characters in pairs joined by `':'`, the last one alone when their number is odd.
pub open spec fn colon_pairs(s: Seq<char>) -> Seq<char>
    decreases s.len(),
{
    if s.len() <= 2 {
        s
    } else {
        s.take(2) + ":"@ + colon_pairs(s.skip(2))
    }
}

/// The hexadecimal digits of the MAC address of interface `i`, as the
/// layout puts them together.
pub open spec fn mac_digits(m: ManagerView, i: nat) -> Seq<char> {
    match m.mac_layout {
        MacLayout::HeaderSixDigits => m.base_mac + zero_pad(hex_lower(i), 6),
        MacLayout::ZeroHeaderFourDigits => "00"@ + m.base_mac + zero_pad(hex_lower(i), 4),
    }
}

/// The MAC address of interface `i`: its digits written in colon-separated pairs.
pub open spec fn interface_mac(m: ManagerView, i: nat) -> Seq<char> {
    colon_pairs(mac_digits(m, i))
}

/// The commands that set up interface `i` with address `ip` and prefix
/// length `cidr`: a private macvlan on the parent, its MAC address, up, its
/// address, and a default route through the gateway.
pub open spec fn interface_commands(m: ManagerView, i: nat, ip: IpView, cidr: nat) -> Seq<Seq<char>> {
    let name = interface_name(m, i);
    seq![
        "ip link add link "@ + m.parent_interface + " name "@ + name + " type macvlan mode private"@,
        "ip link set dev "@ + name + " address "@ + interface_mac(m, i),
        "ip link set "@ + name + " up"@,
        "ip addr add "@ + ip_text(ip) + "/"@ + decimal(cidr) + " dev "@ + name,
        if m.start_ip is V4 {
            "route add -net "@ + "0.0.0.0"@ + "/"@ + "0"@ + " gw "@ + ip_text(m.gw) + " dev "@ + name
        } else {
            "ip -6 route add default via "@ + ip_text(m.gw) + " dev "@ + name
        },
    ]
}

/// The commands of interfaces `1..=k`, for the addresses `ips`.
pub open spec fn interfaces_commands(m: ManagerView, ips: Seq<IpView>, cidr: nat) -> Seq<Seq<char>>
    decreases ips.len(),
{
    if ips.len() == 0 {
        Seq::empty()
    } else {
        interfaces_commands(m, ips.drop_last(), cidr) + interface_commands(
            m,
            ips.len(),
            ips.last(),
            cidr,
        )
    }
}

/// The number of interfaces as the address range takes it.
pub open spec fn range_count(m: ManagerView) -> u32 {
    m.interface_count as u32
}

/// The commands that create the interfaces: the parent into promiscuous
/// mode, then the commands of each interface, numbered from 1, for the
/// addresses that `iterate_ips` gives.
pub open spec fn create_commands(m: ManagerView) -> Seq<Seq<char>> {
    seq!["ip link set "@ + m.parent_interface + " promisc on"@] + interfaces_commands(
        m,
        ip_range(m.start_ip, m.mask, range_count(m)).0,
        cidr_of(m.mask),
    )
}

/// The commands that delete interfaces `1..=interface_count`.
pub open spec fn delete_commands(m: ManagerView, k: nat) -> Seq<Seq<char>>
    decreases k,
{
    if k == 0 {
        Seq::empty()
    } else {
        delete_commands(m, (k - 1) as nat).push("ip link delete "@ + interface_name(m, k))
    }
}

/// How a failed command is taken: as done, as a permission error, or as
/// another error.
#[derive(Clone, Copy, Debug, PartialEq, Eq)]
pub enum CommandOutcome {
    Accepted,
    PermissionDenied,
    Failed,
}

/// How the error output of a failed command is taken: an interface or
/// address that exists already, or a route error (`SIOCADDRT`), counts as
/// done; `Operation not permitted` is a permission error.
pub open spec fn failure_outcome(stderr: Seq<char>) -> CommandOutcome {
    if contains_seq(stderr, "RTNETLINK answers: File exists"@) {
        CommandOutcome::Accepted
    } else if contains_seq(stderr, "RTNETLINK answers: Operation not permitted"@) {
        CommandOutcome::PermissionDenied
    } else if contains_seq(stderr, "SIOCADDRT"@) {
        CommandOutcome::Accepted
    } else {
        CommandOutcome::Failed
    }
}

/// How a command that exited with failure is taken, from its error output.
pub fn classify_failure(stderr: &Vec<u8>) -> (r: CommandOutcome)
    ensures
        r == failure_outcome(lossy_text(stderr@)),
{
    let text = utf8_lossy(stderr.as_slice());
    let t = chars_of(text.as_str());
    if contains(&t, "RTNETLINK answers: File exists") {
        CommandOutcome::Accepted
    } else if contains(&t, "RTNETLINK answers: Operation not permitted") {
        CommandOutcome::PermissionDenied
    } else if contains(&t, "SIOCADDRT") {
        CommandOutcome::Accepted
    } else {
        CommandOutcome::Failed
    }
}

fn push_colon_pairs(out: &mut Vec<char>, s: &Vec<char>)
    ensures
        final(out)@ == old(out)@ + colon_pairs(s@),
{
    let ghost base = out@;
    let ghost mut done: Seq<char> = Seq::empty();
    let mut i: usize = 0;
    assert(s@.skip(0) =~= s@);
    while s.len() - i > 2
        invariant
            i <= s.len(),
            out@ == base + done,
            colon_pairs(s@) == done + colon_pairs(s@.skip(i as int)),
        decreases s.len() - i,
    {
        let ghost t = s@.skip(i as int);
        out.push(s[i]);
        out.push(s[i + 1]);
        out.push(':');
        assert(t.take(2) =~= seq![s@[i as int], s@[i + 1]]);
        assert(t.skip(2) =~= s@.skip(i + 2));
        assert(colon_pairs(t) == t.take(2) + ":"@ + colon_pairs(t.skip(2)));
        proof {
            reveal_strlit(":");
            done = done + t.take(2) + ":"@;
        }
        assert(out@ =~= base + done);
        assert(colon_pairs(s@) =~= done + colon_pairs(s@.skip(i + 2)));
        i += 2;
    }
    let ghost t = s@.skip(i as int);
    assert(colon_pairs(t) == t);
    let mut j = i;
    while j < s.len()
        invariant
            i <= j <= s.len(),
            t == s@.skip(i as int),
            out@ == base + done + s@.subrange(i as int, j as int),
            colon_pairs(s@) == done + t,
        decreases s.len() - j,
    {
        out.push(s[j]);
        j += 1;
        assert(out@ =~= base + done + s@.subrange(i as int, j as int));
    }
    assert(s@.subrange(i as int, j as int) =~= t);
    assert(out@ =~= base + colon_pairs(s@));
}

fn push_string(out: &mut Vec<char>, s: &String)
    ensures
        final(out)@ == old(out)@ + s@,
{
    push_str(out, s.as_str());
}

impl InterfaceManager {
    /// The settings of the interfaces of a configuration: named after the
    /// interface it names, with the MAC header it gives, for all its users;
    /// MAC addresses in the six-digit layout.
    pub fn new(user_config: &ConfigData) -> (r: InterfaceManager)
        ensures
            r@ == (ManagerView {
                parent_interface: user_config.iface_name@,
                base_name: user_config.iface_name@ + "."@,
                base_mac: user_config.sta_mac_header@,
                start_ip: user_config.start_ip@,
                mask: user_config.static_mask@,
                gw: user_config.static_gw@,
                interface_count: user_config.portal_user_num,
                mac_layout: MacLayout::HeaderSixDigits,
            }),
    {
        InterfaceManager::with_mac_layout(user_config, MacLayout::HeaderSixDigits)
    }

    /// The manager of a configuration, as `new` builds it, and the code of
    /// what its `crate_iface` setting asks for: 1 to create the interfaces,
    /// 0 to delete them, -1 for any other value.
    pub fn plan(user_config: &ConfigData) -> (r: (InterfaceManager, i8))
        ensures
            r.0@ == (ManagerView {
                parent_interface: user_config.iface_name@,
                base_name: user_config.iface_name@ + "."@,
                base_mac: user_config.sta_mac_header@,
                start_ip: user_config.start_ip@,
                mask: user_config.static_mask@,
                gw: user_config.static_gw@,
                interface_count: user_config.portal_user_num,
                mac_layout: MacLayout::HeaderSixDigits,
            }),
            r.1 == plan_code(plan_of(user_config.crate_iface)),
    {
        let manager = InterfaceManager::new(user_config);
        let code = InterfacePlan::from_setting(user_config.crate_iface).code();
        (manager, code)
    }

    /// As `new`, with MAC addresses in the layout given.
    pub fn with_mac_layout(user_config: &ConfigData, mac_layout: MacLayout) -> (r:
        InterfaceManager)
        ensures
            r@ == (ManagerView {
                parent_interface: user_config.iface_name@,
                base_name: user_config.iface_name@ + "."@,
                base_mac: user_config.sta_mac_header@,
                start_ip: user_config.start_ip@,
                mask: user_config.static_mask@,
                gw: user_config.static_gw@,
                interface_count: user_config.portal_user_num,
                mac_layout,
            }),
    {
        let mut base: Vec<char> = Vec::new();
        push_string(&mut base, &user_config.iface_name);
        push_str(&mut base, ".");
        InterfaceManager {
            parent_interface: user_config.iface_name.clone(),
            base_name: string_of(&base),
            base_mac: user_config.sta_mac_header.clone(),
            start_ip: user_config.start_ip,
            mask: user_config.static_mask,
            gw: user_config.static_gw,
            interface_count: user_config.portal_user_num,
            mac_layout,
        }
    }

    fn push_name(&self, out: &mut Vec<char>, i: usize)
        ensures
            final(out)@ == old(out)@ + interface_name(self@, i as nat),
    {
        push_string(out, &self.base_name);
        push_decimal(out, i as u64);
    }

    fn interface_commands_of(&self, i: usize, ip: IpAddress, cidr: u32) -> (r: Vec<String>)
        ensures
            views_of_strings(r@) == interface_commands(self@, i as nat, ip@, cidr as nat),
    {
        let mut c1: Vec<char> = Vec::new();
        push_str(&mut c1, "ip link add link ");
        push_string(&mut c1, &self.parent_interface);
        push_str(&mut c1, " name ");
        self.push_name(&mut c1, i);
        push_str(&mut c1, " type macvlan mode private");
        let mut mac: Vec<char> = Vec::new();
        match self.mac_layout {
            MacLayout::HeaderSixDigits => {
                push_string(&mut mac, &self.base_mac);
                push_hex_padded(&mut mac, i as u64, 6);
            },
            MacLayout::ZeroHeaderFourDigits => {
                push_str(&mut mac, "00");
                push_string(&mut mac, &self.base_mac);
                push_hex_padded(&mut mac, i as u64, 4);
            },
        }
        assert(mac@ =~= mac_digits(self@, i as nat));
        let mut c2: Vec<char> = Vec::new();
        push_str(&mut c2, "ip link set dev ");
        self.push_name(&mut c2, i);
        push_str(&mut c2, " address ");
        push_colon_pairs(&mut c2, &mac);
        let mut c3: Vec<char> = Vec::new();
        push_str(&mut c3, "ip link set ");
        self.push_name(&mut c3, i);
        push_str(&mut c3, " up");
        let mut c4: Vec<char> = Vec::new();
        push_str(&mut c4, "ip addr add ");
        push_ip_text(&mut c4, ip);
        push_str(&mut c4, "/");
        push_decimal(&mut c4, cidr as u64);
        push_str(&mut c4, " dev ");
        self.push_name(&mut c4, i);
        let mut c5: Vec<char> = Vec::new();
        match self.start_ip {
            IpAddress::V4(_) => {
                push_str(&mut c5, "route add -net ");
                push_str(&mut c5, "0.0.0.0");
                push_str(&mut c5, "/");
                push_str(&mut c5, "0");
                push_str(&mut c5, " gw ");
                push_ip_text(&mut c5, self.gw);
                push_str(&mut c5, " dev ");
                self.push_name(&mut c5, i);
            },
            IpAddress::V6(_) => {
                push_str(&mut c5, "ip -6 route add default via ");
                push_ip_text(&mut c5, self.gw);
                push_str(&mut c5, " dev ");
                self.push_name(&mut c5, i);
            },
        }
        let mut r: Vec<String> = Vec::new();
        r.push(string_of(&c1));
        r.push(string_of(&c2));
        r.push(string_of(&c3));
        r.push(string_of(&c4));
        r.push(string_of(&c5));
        assert(views_of_strings(r@) =~= interface_commands(self@, i as nat, ip@, cidr as nat));
        r
    }

    /// The commands that create the interfaces, as `create_commands`
    /// describes; to be run in order.
    pub fn create_interface(&self) -> (r: Vec<String>)
        requires
            ip_range_ok(self@.start_ip, self@.mask, range_count(self@)),
        ensures
            views_of_strings(r@) == create_commands(self@),
    {
        let mut first: Vec<char> = Vec::new();
        push_str(&mut first, "ip link set ");
        push_string(&mut first, &self.parent_interface);
        push_str(&mut first, " promisc on");
        let mut r: Vec<String> = Vec::new();
        r.push(string_of(&first));
        let (ip_addr_list, _network_addr) = iterate_ips(
            self.start_ip,
            self.mask,
            #[verifier::truncate] (self.interface_count as u32),
        );
        let cidr = mask_to_cidr(self.mask);
        let ghost ips = addr_views(ip_addr_list@);
        let mut k: usize = 0;
        assert(ips.take(0) =~= Seq::<IpView>::empty());
        assert(views_of_strings(r@) =~= seq!["ip link set "@ + self@.parent_interface + " promisc on"@]);
        while k < ip_addr_list.len()
            invariant
                k <= ip_addr_list.len(),
                ips == addr_views(ip_addr_list@),
                cidr == cidr_of(self@.mask),
                views_of_strings(r@) == seq!["ip link set "@ + self@.parent_interface + " promisc on"@]
                    + interfaces_commands(self@, ips.take(k as int), cidr as nat),
            decreases ip_addr_list.len() - k,
        {
            let i = k + 1;
            let ghost before = r@;
            let mut cs = self.interface_commands_of(i, ip_addr_list[k], cidr);
            r.append(&mut cs);
            proof {
                let t = ips.take(k + 1);
                assert(t.drop_last() =~= ips.take(k as int));
                assert(t.last() == ip_addr_list@[k as int]@);
                assert(views_of_strings(r@) =~= views_of_strings(before) + interface_commands(
                    self@,
                    i as nat,
                    ip_addr_list@[k as int]@,
                    cidr as nat,
                ));
            }
            k += 1;
        }
        assert(ips.take(k as int) =~= ips);
        r
    }

    /// The commands that delete the interfaces, as `delete_commands` describes.
    pub fn delete_interfaces(&self) -> (r: Vec<String>)
        ensures
            views_of_strings(r@) == delete_commands(self@, self.interface_count as nat),
    {
        let mut r: Vec<String> = Vec::new();
        let mut i: usize = 1;
        assert(views_of_strings(r@) =~= delete_commands(self@, 0));
        while i <= self.interface_count
            invariant
                1 <= i,
                i <= self.interface_count + 1,
                views_of_strings(r@) == delete_commands(self@, (i - 1) as nat),
            decreases self.interface_count + 1 - i,
        {
            let mut c: Vec<char> = Vec::new();
            push_str(&mut c, "ip link delete ");
            self.push_name(&mut c, i);
            let ghost before = r@;
            r.push(string_of(&c));
            assert(views_of_strings(r@) =~= views_of_strings(before).push(c@));
            if i == self.interface_count {
                return r;
            }
            i += 1;
        }
        r
    }
}

/// The texts of a sequence of strings.
pub open spec fn views_of_strings(v: Seq<String>) -> Seq<Seq<char>> {
    v.map_values(|s: String| s@)
}


/// Different interfaces have different names.
pub proof fn lemma_interface_names_distinct(m: ManagerView, i: nat, j: nat)
    requires
        i != j,
    ensures
        interface_name(m, i) != interface_name(m, j),
{
    let a = decimal(i);
    let b = decimal(j);
    if m.base_name + a == m.base_name + b {
        assert((m.base_name + a).skip(m.base_name.len() as int) =~= a);
        assert((m.base_name + b).skip(m.base_name.len() as int) =~= b);
        lemma_decimal_injective(i, j);
    }
}


/// Colon-separated pairs give back the characters they were made of.
proof fn lemma_colon_pairs_injective(x: Seq<char>, y: Seq<char>)
    requires
        colon_pairs(x) == colon_pairs(y),
    ensures
        x == y,
    decreases x.len(),
{
    reveal_strlit(":");
    lemma_colon_pairs_len(x);
    lemma_colon_pairs_len(y);
    if x.len() > 2 && y.len() > 2 {
        let cx = colon_pairs(x);
        assert(cx == x.take(2) + ":"@ + colon_pairs(x.skip(2)));
        assert(colon_pairs(y) == y.take(2) + ":"@ + colon_pairs(y.skip(2)));
        assert(cx.skip(3) =~= colon_pairs(x.skip(2)));
        assert(colon_pairs(y).skip(3) =~= colon_pairs(y.skip(2)));
        lemma_colon_pairs_injective(x.skip(2), y.skip(2));
        assert(x[0] == cx[0] && x[1] == cx[1]);
        assert(y[0] == cx[0] && y[1] == cx[1]);
        assert(x =~= x.take(2) + x.skip(2));
        assert(y =~= y.take(2) + y.skip(2));
        assert(x.take(2) =~= y.take(2));
    }
}

proof fn lemma_colon_pairs_len(x: Seq<char>)
    ensures
        x.len() <= 2 ==> colon_pairs(x) == x,
        x.len() > 2 ==> colon_pairs(x).len() > 2,
        colon_pairs(x).len() >= x.len(),
    decreases x.len(),
{
    if x.len() > 2 {
        lemma_colon_pairs_len(x.skip(2));
    }
}

/// The value of the digits that a MAC address is made from, after the header.
proof fn lemma_padded_hex_value(i: nat, w: nat)
    ensures
        run_value(zero_pad(hex_lower(i), w), 16) == i,
{
    lemma_hex_run(i);
    let h = hex_lower(i);
    if h.len() < w {
        lemma_leading_zeros_value((w - h.len()) as nat, h);
    }
}

/// Different interfaces have different MAC addresses.
pub proof fn lemma_interface_macs_distinct(m: ManagerView, i: nat, j: nat)
    requires
        i != j,
    ensures
        interface_mac(m, i) != interface_mac(m, j),
{
    reveal_strlit("00");
    if interface_mac(m, i) == interface_mac(m, j) {
        lemma_colon_pairs_injective(mac_digits(m, i), mac_digits(m, j));
        let (w, pre) = match m.mac_layout {
            MacLayout::HeaderSixDigits => (6nat, m.base_mac),
            MacLayout::ZeroHeaderFourDigits => (4nat, "00"@ + m.base_mac),
        };
        let a = zero_pad(hex_lower(i), w);
        let b = zero_pad(hex_lower(j), w);
        assert(mac_digits(m, i) == pre + a);
        assert(mac_digits(m, j) == pre + b);
        assert((pre + a).skip(pre.len() as int) =~= a);
        assert((pre + b).skip(pre.len() as int) =~= b);
        lemma_padded_hex_value(i, w);
        lemma_padded_hex_value(j, w);
    }
}

} // verus!
