//! The sets of NordVPN OpenVPN configuration files a user can choose to install.

use vstd::prelude::*;

use crate::text::{has_infix, has_prefix, occurs_at};
use crate::ui::ConfigurationChoice;

verus! {

/// The transport an OpenVPN configuration connects over.
#[derive(PartialEq, Eq, Structural, Clone, Copy, Debug)]
pub enum OpenVpnProtocol {
    UDP,
    TCP,
}

/// A set of NordVPN configuration files: standard, Onion over VPN, or Double VPN, each over
/// TCP or UDP.
#[derive(PartialEq, Eq, Structural, Clone, Copy, Debug)]
pub enum ConfigType {
    DefaultTcp,
    Udp,
    OnionTcp,
    OnionUdp,
    DoubleTcp,
    DoubleUdp,
}

/// The number of configuration types.
pub const CONFIG_TYPE_COUNT: usize = 6;

impl ConfigType {
    /// The position of this type in the list offered to the user.
    pub open spec fn spec_index(self) -> nat {
        match self {
            ConfigType::DefaultTcp => 0,
            ConfigType::Udp => 1,
            ConfigType::OnionTcp => 2,
            ConfigType::OnionUdp => 3,
            ConfigType::DoubleTcp => 4,
            ConfigType::DoubleUdp => 5,
        }
    }

    /// The type at position `index` of the list offered to the user.
    pub open spec fn spec_from_index(index: nat) -> ConfigType
        recommends
            index < 6,
    {
        if index == 0 {
            ConfigType::DefaultTcp
        } else if index == 1 {
            ConfigType::Udp
        } else if index == 2 {
            ConfigType::OnionTcp
        } else if index == 3 {
            ConfigType::OnionUdp
        } else if index == 4 {
            ConfigType::DoubleTcp
        } else {
            ConfigType::DoubleUdp
        }
    }

    pub open spec fn spec_protocol(self) -> OpenVpnProtocol {
        match self {
            ConfigType::DefaultTcp | ConfigType::OnionTcp | ConfigType::DoubleTcp => OpenVpnProtocol::TCP,
            ConfigType::Udp | ConfigType::OnionUdp | ConfigType::DoubleUdp => OpenVpnProtocol::UDP,
        }
    }

    pub open spec fn spec_is_onion(self) -> bool {
        self == ConfigType::OnionTcp || self == ConfigType::OnionUdp
    }

    pub open spec fn spec_is_double(self) -> bool {
        self == ConfigType::DoubleTcp || self == ConfigType::DoubleUdp
    }

    /// The name shown to the user.
    pub open spec fn spec_display_name(self) -> Seq<char> {
        match self {
            ConfigType::DefaultTcp => "Default (TCP)"@,
            ConfigType::Udp => "UDP"@,
            ConfigType::OnionTcp => "Onion (TCP)"@,
            ConfigType::OnionUdp => "Onion (UDP)"@,
            ConfigType::DoubleTcp => "Double TCP"@,
            ConfigType::DoubleUdp => "Double UDP"@,
        }
    }

    /// The description shown to the user.
    pub open spec fn spec_description(self) -> Seq<char> {
        match self {
            ConfigType::DefaultTcp => "These files connect over TCP."@,
            ConfigType::Udp => "These files connect over UDP."@,
            ConfigType::OnionTcp => "These files connect via Onion over VPN, using TCP."@,
            ConfigType::OnionUdp => "These files connect via Onion over VPN, using UDP."@,
            ConfigType::DoubleTcp =>
                "These files connect over TCP across two separate VPN servers. The country listed is the initial outgoing VPN server."@,
            ConfigType::DoubleUdp =>
                "These files connect over UDP across two separate VPN servers. The country listed is the initial outgoing VPN server."@,
        }
    }

    /// The transport of this configuration type.
    pub fn get_protocol(&self) -> (r: OpenVpnProtocol)
        ensures
            r == self.spec_protocol(),
    {
        match self {
            ConfigType::DefaultTcp => OpenVpnProtocol::TCP,
            ConfigType::Udp => OpenVpnProtocol::UDP,
            ConfigType::OnionTcp => OpenVpnProtocol::TCP,
            ConfigType::OnionUdp => OpenVpnProtocol::UDP,
            ConfigType::DoubleTcp => OpenVpnProtocol::TCP,
            ConfigType::DoubleUdp => OpenVpnProtocol::UDP,
        }
    }

    /// Whether this is an Onion over VPN type.
    pub fn is_onion(&self) -> (r: bool)
        ensures
            r == self.spec_is_onion(),
    {
        match self {
            ConfigType::OnionTcp | ConfigType::OnionUdp => true,
            _ => false,
        }
    }

    /// Whether this is a Double VPN type.
    pub fn is_double(&self) -> (r: bool)
        ensures
            r == self.spec_is_double(),
    {
        match self {
            ConfigType::DoubleTcp | ConfigType::DoubleUdp => true,
            _ => false,
        }
    }

    /// The type at position `index` of the list offered to the user; there are six.
    pub fn index_to_variant(index: usize) -> (r: ConfigType)
        requires
            index < CONFIG_TYPE_COUNT,
        ensures
            r == Self::spec_from_index(index as nat),
            r.spec_index() == index,
    {
        match index {
            0 => ConfigType::DefaultTcp,
            1 => ConfigType::Udp,
            2 => ConfigType::OnionTcp,
            3 => ConfigType::OnionUdp,
            4 => ConfigType::DoubleTcp,
            _ => ConfigType::DoubleUdp,
        }
    }

    /// The name shown to the user.
    pub fn display_name(&self) -> (r: String)
        ensures
            r@ == self.spec_display_name(),
    {
        let s = match self {
            ConfigType::DefaultTcp => "Default (TCP)",
            ConfigType::Udp => "UDP",
            ConfigType::OnionTcp => "Onion (TCP)",
            ConfigType::OnionUdp => "Onion (UDP)",
            ConfigType::DoubleTcp => "Double TCP",
            ConfigType::DoubleUdp => "Double UDP",
        };
        String::from_str(s)
    }

    /// The description shown to the user.
    pub fn description_text(&self) -> (r: String)
        ensures
            r@ == self.spec_description(),
    {
        let s = match self {
            ConfigType::DefaultTcp => "These files connect over TCP.",
            ConfigType::Udp => "These files connect over UDP.",
            ConfigType::OnionTcp => "These files connect via Onion over VPN, using TCP.",
            ConfigType::OnionUdp => "These files connect via Onion over VPN, using UDP.",
            ConfigType::DoubleTcp =>
                "These files connect over TCP across two separate VPN servers. The country listed is the initial outgoing VPN server.",
            ConfigType::DoubleUdp =>
                "These files connect over UDP across two separate VPN servers. The country listed is the initial outgoing VPN server.",
        };
        String::from_str(s)
    }
}

impl Default for ConfigType {
    /// Standard servers over TCP.
    fn default() -> (r: ConfigType)
        ensures
            r == ConfigType::DefaultTcp,
    {
        ConfigType::DefaultTcp
    }
}

/// The question asked when choosing a configuration type.
pub open spec fn config_prompt() -> Seq<char> {
    "Please choose the set of OpenVPN configuration files you wish to install"@
}

impl ConfigurationChoice for ConfigType {
    fn prompt(&self) -> (r: String)
        ensures
            r@ == config_prompt(),
    {
        String::from_str("Please choose the set of OpenVPN configuration files you wish to install")
    }

    /// The names of all six types, in index order.
    fn all_names(&self) -> (r: Vec<String>)
        ensures
            r@.len() == 6,
            forall|i: int|
                0 <= i < 6 ==> #[trigger] r@[i]@ == ConfigType::spec_from_index(
                    i as nat,
                ).spec_display_name(),
    {
        let mut r: Vec<String> = Vec::new();
        let mut i: usize = 0;
        while i < CONFIG_TYPE_COUNT
            invariant
                i <= 6,
                r@.len() == i,
                forall|j: int|
                    0 <= j < i ==> #[trigger] r@[j]@ == ConfigType::spec_from_index(
                        j as nat,
                    ).spec_display_name(),
            decreases 6 - i,
        {
            r.push(ConfigType::index_to_variant(i).display_name());
            i = i + 1;
        }
        r
    }

    /// The descriptions of all six types, in index order.
    fn all_descriptions(&self) -> (r: Option<Vec<String>>)
        ensures
            r matches Some(v) && v@.len() == 6 && forall|i: int|
                0 <= i < 6 ==> #[trigger] v@[i]@ == ConfigType::spec_from_index(
                    i as nat,
                ).spec_description(),
    {
        let mut r: Vec<String> = Vec::new();
        let mut i: usize = 0;
        while i < CONFIG_TYPE_COUNT
            invariant
                i <= 6,
                r@.len() == i,
                forall|j: int|
                    0 <= j < i ==> #[trigger] r@[j]@ == ConfigType::spec_from_index(
                        j as nat,
                    ).spec_description(),
            decreases 6 - i,
        {
            r.push(ConfigType::index_to_variant(i).description_text());
            i = i + 1;
        }
        Some(r)
    }

    /// The description of this type; every type has one.
    fn description(&self) -> (r: Option<String>)
        ensures
            r matches Some(s) && s@ == self.spec_description(),
    {
        Some(self.description_text())
    }
}

/// Positions and types correspond one to one: the type at a position has that position, and
/// the type at a type's position is that type.
pub proof fn lemma_index_round_trip(c: ConfigType, index: nat)
    requires
        index < 6,
    ensures
        ConfigType::spec_from_index(index).spec_index() == index,
        ConfigType::spec_from_index(c.spec_index()) == c,
        c.spec_index() < 6,
{
}

/// Every type is exactly one of standard, Onion over VPN or Double VPN, and its transport
/// follows its position: even positions are TCP, odd ones UDP.
pub proof fn lemma_kind_partition(c: ConfigType)
    ensures
        !(c.spec_is_onion() && c.spec_is_double()),
        c.spec_is_onion() <==> (c.spec_index() == 2 || c.spec_index() == 3),
        c.spec_is_double() <==> (c.spec_index() == 4 || c.spec_index() == 5),
        (c.spec_protocol() == OpenVpnProtocol::TCP) <==> c.spec_index() % 2 == 0,
{
}

/// Distinct configuration types have distinct names, and a name starts with `Onion` exactly
/// for the Onion over VPN types and with `Double` exactly for the Double VPN types.
pub proof fn lemma_display_names(u: ConfigType, v: ConfigType)
    ensures
        u != v ==> u.spec_display_name() != v.spec_display_name(),
        has_prefix(u.spec_display_name(), "Onion"@) <==> u.spec_is_onion(),
        has_prefix(u.spec_display_name(), "Double"@) <==> u.spec_is_double(),
{
    reveal_strlit("Default (TCP)");
    reveal_strlit("UDP");
    reveal_strlit("Onion (TCP)");
    reveal_strlit("Onion (UDP)");
    reveal_strlit("Double TCP");
    reveal_strlit("Double UDP");
    reveal_strlit("Onion");
    reveal_strlit("Double");
    let n = u.spec_display_name();
    let m = v.spec_display_name();
    if u != v && n == m {
        assert(n.len() == m.len());
        assert(n[0] == m[0]);
        assert(n[7] == m[7]);
    }
    if u.spec_is_onion() {
        assert(n.subrange(0, 5) =~= "Onion"@);
    } else if n.len() >= 5 {
        assert(n.subrange(0, 5)[0] != 'O' || n.subrange(0, 5)[1] != 'n');
    }
    if u.spec_is_double() {
        assert(n.subrange(0, 6) =~= "Double"@);
    } else if n.len() >= 6 {
        assert(n.subrange(0, 6)[0] != 'D' || n.subrange(0, 6)[1] != 'o');
    }
}

/// Text that `pat` occurs in holds each character of `pat`.
proof fn lemma_infix_has_char(s: Seq<char>, pat: Seq<char>, k: int)
    requires
        has_infix(s, pat),
        0 <= k < pat.len(),
    ensures
        exists|i: int| 0 <= i < s.len() && s[i] == pat[k],
{
    let i = choose|i: int| occurs_at(s, pat, i);
    assert(s.subrange(i, i + pat.len())[k] == s[i + k]);
}

/// What a description mentions: `TCP` exactly for the TCP types, `UDP` exactly for the UDP
/// types, `Onion` exactly for the Onion over VPN types, and "two separate VPN servers"
/// exactly for the Double VPN types.
pub open spec fn description_mentions(c: ConfigType) -> bool {
    let d = c.spec_description();
    &&& has_infix(d, "TCP"@) <==> c.spec_protocol() == OpenVpnProtocol::TCP
    &&& has_infix(d, "UDP"@) <==> c.spec_protocol() == OpenVpnProtocol::UDP
    &&& has_infix(d, "Onion"@) <==> c.spec_is_onion()
    &&& has_infix(d, "two separate VPN servers"@) <==> c.spec_is_double()
}

/// Each description mentions its transport and its kind, and no other. A mention that a
/// description lacks would need a character it does not hold (`C`, `U`, `O` or `w`).
pub proof fn lemma_descriptions(c: ConfigType)
    ensures
        description_mentions(c),
{
    reveal_strlit("TCP");
    reveal_strlit("UDP");
    reveal_strlit("Onion");
    reveal_strlit("two separate VPN servers");
    let d = c.spec_description();
    match c {
        ConfigType::DefaultTcp => {
            reveal_strlit("These files connect over TCP.");
            assert(d.subrange(25, 28) =~= "TCP"@);
            assert(occurs_at(d, "TCP"@, 25));
            if has_infix(d, "UDP"@) {
                lemma_infix_has_char(d, "UDP"@, 0);
                assert(forall|i: int| 0 <= i < d.len() ==> d[i] != 'U');
            }
            if has_infix(d, "Onion"@) {
                lemma_infix_has_char(d, "Onion"@, 0);
                assert(forall|i: int| 0 <= i < d.len() ==> d[i] != 'O');
            }
            if has_infix(d, "two separate VPN servers"@) {
                lemma_infix_has_char(d, "two separate VPN servers"@, 1);
                assert(forall|i: int| 0 <= i < d.len() ==> d[i] != 'w');
            }
        },
        ConfigType::Udp => {
            reveal_strlit("These files connect over UDP.");
            if has_infix(d, "TCP"@) {
                lemma_infix_has_char(d, "TCP"@, 1);
                assert(forall|i: int| 0 <= i < d.len() ==> d[i] != 'C');
            }
            assert(d.subrange(25, 28) =~= "UDP"@);
            assert(occurs_at(d, "UDP"@, 25));
            if has_infix(d, "Onion"@) {
                lemma_infix_has_char(d, "Onion"@, 0);
                assert(forall|i: int| 0 <= i < d.len() ==> d[i] != 'O');
            }
            if has_infix(d, "two separate VPN servers"@) {
                lemma_infix_has_char(d, "two separate VPN servers"@, 1);
                assert(forall|i: int| 0 <= i < d.len() ==> d[i] != 'w');
            }
        },
        ConfigType::OnionTcp => {
            reveal_strlit("These files connect via Onion over VPN, using TCP.");
            assert(d.subrange(46, 49) =~= "TCP"@);
            assert(occurs_at(d, "TCP"@, 46));
            if has_infix(d, "UDP"@) {
                lemma_infix_has_char(d, "UDP"@, 0);
                assert(forall|i: int| 0 <= i < d.len() ==> d[i] != 'U');
            }
            assert(d.subrange(24, 29) =~= "Onion"@);
            assert(occurs_at(d, "Onion"@, 24));
            if has_infix(d, "two separate VPN servers"@) {
                lemma_infix_has_char(d, "two separate VPN servers"@, 1);
                assert(forall|i: int| 0 <= i < d.len() ==> d[i] != 'w');
            }
        },
        ConfigType::OnionUdp => {
            reveal_strlit("These files connect via Onion over VPN, using UDP.");
            if has_infix(d, "TCP"@) {
                lemma_infix_has_char(d, "TCP"@, 1);
                assert(forall|i: int| 0 <= i < d.len() ==> d[i] != 'C');
            }
            assert(d.subrange(46, 49) =~= "UDP"@);
            assert(occurs_at(d, "UDP"@, 46));
            assert(d.subrange(24, 29) =~= "Onion"@);
            assert(occurs_at(d, "Onion"@, 24));
            if has_infix(d, "two separate VPN servers"@) {
                lemma_infix_has_char(d, "two separate VPN servers"@, 1);
                assert(forall|i: int| 0 <= i < d.len() ==> d[i] != 'w');
            }
        },
        ConfigType::DoubleTcp => {
            reveal_strlit("These files connect over TCP across two separate VPN servers. The country listed is the initial outgoing VPN server.");
            assert(d.subrange(25, 28) =~= "TCP"@);
            assert(occurs_at(d, "TCP"@, 25));
            if has_infix(d, "UDP"@) {
                lemma_infix_has_char(d, "UDP"@, 0);
                assert(forall|i: int| 0 <= i < d.len() ==> d[i] != 'U');
            }
            if has_infix(d, "Onion"@) {
                lemma_infix_has_char(d, "Onion"@, 0);
                assert(forall|i: int| 0 <= i < d.len() ==> d[i] != 'O');
            }
            assert(d.subrange(36, 60) =~= "two separate VPN servers"@);
            assert(occurs_at(d, "two separate VPN servers"@, 36));
        },
        ConfigType::DoubleUdp => {
            reveal_strlit("These files connect over UDP across two separate VPN servers. The country listed is the initial outgoing VPN server.");
            if has_infix(d, "TCP"@) {
                lemma_infix_has_char(d, "TCP"@, 1);
                assert(forall|i: int| 0 <= i < d.len() ==> d[i] != 'C');
            }
            assert(d.subrange(25, 28) =~= "UDP"@);
            assert(occurs_at(d, "UDP"@, 25));
            if has_infix(d, "Onion"@) {
                lemma_infix_has_char(d, "Onion"@, 0);
                assert(forall|i: int| 0 <= i < d.len() ==> d[i] != 'O');
            }
            assert(d.subrange(36, 60) =~= "two separate VPN servers"@);
            assert(occurs_at(d, "two separate VPN servers"@, 36));
        },
    }
}

} // verus!
