use vstd::prelude::*;
use vstd::string::*;

use crate::error::Error;
use crate::strings::{decimal, decimal_string};

verus! {

/// The gossip arc setting that the crate's features select.
#[derive(Clone, Copy, Debug, PartialEq, Eq)]
pub enum GossipArc {
    /// `gossip_arc_empty`: the node holds no data for others.
    Empty,
    /// `gossip_arc_full`: the node holds all the data.
    Full,
    /// `gossip_arc_normal`: the conductor decides.
    Normal,
}

/// Why the gossip arc features do not select one setting.
#[derive(Clone, Copy, Debug, PartialEq, Eq)]
pub enum GossipArcFeatureError {
    EmptyAndFull,
    EmptyAndNormal,
    FullAndNormal,
    NoneEnabled,
}

impl GossipArcFeatureError {
    /// The message that describes the error.
    pub fn message(&self) -> (m: String)
        ensures
            m@ == (match self {
                GossipArcFeatureError::EmptyAndFull => "The `gossip_arc_empty` and `gossip_arc_full` features are both enabled, which is an error. Please enable only one."@,
                GossipArcFeatureError::EmptyAndNormal => "The `gossip_arc_empty` and `gossip_arc_normal` features are both enabled, which is an error. Please enable only one."@,
                GossipArcFeatureError::FullAndNormal => "The `gossip_arc_full` and `gossip_arc_normal` features are both enabled, which is an error. Please enable only one."@,
                GossipArcFeatureError::NoneEnabled => "All of the `gossip_arc_empty`, `gossip_arc_full`, and `gossip_arc_normal` features are disabled. Please enable one of them."@,
            }),
    {
        match self {
            GossipArcFeatureError::EmptyAndFull => String::from_str(
                "The `gossip_arc_empty` and `gossip_arc_full` features are both enabled, which is an error. Please enable only one.",
            ),
            GossipArcFeatureError::EmptyAndNormal => String::from_str(
                "The `gossip_arc_empty` and `gossip_arc_normal` features are both enabled, which is an error. Please enable only one.",
            ),
            GossipArcFeatureError::FullAndNormal => String::from_str(
                "The `gossip_arc_full` and `gossip_arc_normal` features are both enabled, which is an error. Please enable only one.",
            ),
            GossipArcFeatureError::NoneEnabled => String::from_str(
                "All of the `gossip_arc_empty`, `gossip_arc_full`, and `gossip_arc_normal` features are disabled. Please enable one of them.",
            ),
        }
    }
}

/// The gossip arc setting that the enabled features select: exactly one of them must be on.
pub fn gossip_arc_from_features(empty: bool, full: bool, normal: bool) -> (r: Result<
    GossipArc,
    GossipArcFeatureError,
>)
    ensures
        empty && full ==> r == Err::<GossipArc, _>(GossipArcFeatureError::EmptyAndFull),
        empty && !full && normal ==> r == Err::<GossipArc, _>(
            GossipArcFeatureError::EmptyAndNormal,
        ),
        !empty && full && normal ==> r == Err::<GossipArc, _>(
            GossipArcFeatureError::FullAndNormal,
        ),
        !empty && !full && !normal ==> r == Err::<GossipArc, _>(
            GossipArcFeatureError::NoneEnabled,
        ),
        empty && !full && !normal ==> r == Ok::<_, GossipArcFeatureError>(GossipArc::Empty),
        !empty && full && !normal ==> r == Ok::<_, GossipArcFeatureError>(GossipArc::Full),
        !empty && !full && normal ==> r == Ok::<_, GossipArcFeatureError>(GossipArc::Normal),
{
    if empty && full {
        Err(GossipArcFeatureError::EmptyAndFull)
    } else if empty && normal {
        Err(GossipArcFeatureError::EmptyAndNormal)
    } else if full && normal {
        Err(GossipArcFeatureError::FullAndNormal)
    } else if empty {
        Ok(GossipArc::Empty)
    } else if full {
        Ok(GossipArc::Full)
    } else if normal {
        Ok(GossipArc::Normal)
    } else {
        Err(GossipArcFeatureError::NoneEnabled)
    }
}

/// The gossip arc clamping that the conductor is configured with for the selected setting;
/// `None` leaves the conductor's default.
pub open spec fn gossip_arc_clamping_spec(arc: GossipArc) -> Option<Seq<char>> {
    match arc {
        GossipArc::Empty => Some("empty"@),
        GossipArc::Full => Some("full"@),
        GossipArc::Normal => None,
    }
}

/// The gossip arc clamping that overrides the conductor's default for the selected setting.
pub fn override_gossip_arc_clamping(arc: GossipArc) -> (r: Option<String>)
    ensures
        match (r, gossip_arc_clamping_spec(arc)) {
            (Some(s), Some(t)) => s@ == t,
            (None, None) => true,
            _ => false,
        },
{
    match arc {
        GossipArc::Empty => Some(String::from_str("empty")),
        GossipArc::Full => Some(String::from_str("full")),
        GossipArc::Normal => None,
    }
}

/// The address at which the admin websocket of the conductor listens.
pub fn admin_websocket_address(admin_port: u16) -> (r: String)
    ensures
        r@ == "localhost:"@ + decimal(admin_port as nat),
{
    let mut r = String::from_str("localhost:");
    r.append(decimal_string(admin_port as u64).as_str());
    r
}

/// Whether a local signal server has to be run: when no WAN network is configured, or when
/// its signal server cannot be reached.
pub fn needs_local_signal_server(has_wan_network: bool, wan_signal_reachable: bool) -> (r: bool)
    ensures
        r == (!has_wan_network || !wan_signal_reachable),
{
    !has_wan_network || !wan_signal_reachable
}

/// Whether the runtime runs a local signal server: only when the WAN signal server cannot be
/// reached and the runtime is allowed to fall back to the local network.
pub fn runtime_needs_local_signal_server(wan_signal_reachable: bool, fallback_to_lan_only: bool) -> (r:
    bool)
    ensures
        r == (!wan_signal_reachable && fallback_to_lan_only),
{
    if !wan_signal_reachable {
        fallback_to_lan_only
    } else {
        false
    }
}

/// What `url2::Url2::try_parse` gives back for `s`: the serialization of the parsed URL, or
/// `None` where `s` is no valid URL.
pub uninterp spec fn parsed_url2(s: Seq<char>) -> Option<Seq<char>>;

#[verifier::external_type_specification]
#[verifier::external_body]
pub struct ExUrl2Error(url2::Url2Error);

/// `url2::Url2::try_parse`, giving back the serialization of the parsed URL.
#[verifier::external_body]
pub(crate) fn try_parse_url2(s: &str) -> (r: Result<String, url2::Url2Error>)
    ensures
        r is Ok <==> parsed_url2(s@) is Some,
        r matches Ok(u) ==> parsed_url2(s@) == Some(u@),
{
    url2::Url2::try_parse(s).map(|u| u.as_str().to_string())
}

/// The text of the URL of a local signal server.
pub open spec fn local_signal_url_text(local_ip: Seq<char>, port: u16) -> Seq<char> {
    "ws://"@ + local_ip + ":"@ + decimal(port as nat)
}

/// The URL of the signal server run on this machine at `local_ip` and `port`; `None` where
/// that text does not parse as a URL.
pub fn local_signal_url(local_ip: &String, port: u16) -> (r: Option<String>)
    ensures
        match r {
            Some(u) => parsed_url2(local_signal_url_text(local_ip@, port)) == Some(u@),
            None => parsed_url2(local_signal_url_text(local_ip@, port)) is None,
        },
{
    let mut text = String::from_str("ws://");
    text.append(local_ip.as_str());
    text.append(":");
    text.append(decimal_string(port as u64).as_str());
    match try_parse_url2(text.as_str()) {
        Ok(u) => Some(u),
        Err(_) => None,
    }
}

/// The signal servers the conductor uses: the local one first, when one runs, then the one of
/// the WAN network, when one is configured.
pub open spec fn signal_urls_spec(local: Option<Seq<char>>, wan: Option<Seq<char>>) -> Seq<
    Seq<char>,
> {
    let w = match wan {
        Some(u) => seq![u],
        None => Seq::empty(),
    };
    match local {
        Some(l) => seq![l] + w,
        None => w,
    }
}

/// The signal servers the conductor uses.
pub fn signal_urls(local_signal_url: Option<String>, wan_signal_url: Option<String>) -> (r: Vec<
    String,
>)
    ensures
        r@.map_values(|s: String| s@) == signal_urls_spec(
            match local_signal_url {
                Some(l) => Some(l@),
                None => None,
            },
            match wan_signal_url {
                Some(w) => Some(w@),
                None => None,
            },
        ),
{
    let mut r: Vec<String> = Vec::new();
    if let Some(w) = wan_signal_url {
        r.push(w);
    }
    if let Some(l) = local_signal_url {
        r.insert(0, l);
    }
    assert(r@.map_values(|s: String| s@) =~= signal_urls_spec(
        match local_signal_url {
            Some(l) => Some(l@),
            None => None,
        },
        match wan_signal_url {
            Some(w) => Some(w@),
            None => None,
        },
    ));
    r
}

/// The number of failed attempts to reach the admin websocket after which launching gives up.
pub const ADMIN_WS_MAX_ATTEMPTS: u32 = 200;

/// The pause, in milliseconds, between two attempts to reach the admin websocket.
pub const ADMIN_WS_RETRY_INTERVAL_MS: u64 = 200;

/// What to do after an attempt to reach the admin websocket.
#[derive(Clone, Copy, Debug, PartialEq, Eq)]
pub enum AdminWsStep {
    /// The websocket answered: launching goes on.
    Available,
    /// Pause, then try again.
    PauseThenRetry,
    /// Pause, then give up.
    PauseThenGiveUp,
}

/// The state of the wait for the admin websocket to answer.
pub struct AdminWsWait {
    failures: u32,
}

impl AdminWsWait {
    /// The number of failed attempts so far.
    pub closed spec fn failures(&self) -> nat {
        self.failures as nat
    }

    /// The wait before the first attempt.
    pub fn new() -> (r: Self)
        ensures
            r.failures() == 0,
    {
        AdminWsWait { failures: 0 }
    }

    /// What to do after an attempt, given whether it reached the admin websocket. After a
    /// failure the wait pauses, counts it, and gives up once the count reaches the limit.
    pub fn after_attempt(&mut self, connected: bool) -> (r: AdminWsStep)
        requires
            old(self).failures() < ADMIN_WS_MAX_ATTEMPTS,
        ensures
            connected ==> r == AdminWsStep::Available,
            connected ==> final(self).failures() == old(self).failures(),
            !connected ==> final(self).failures() == old(self).failures() + 1,
            !connected ==> (r == AdminWsStep::PauseThenGiveUp <==> final(self).failures()
                == ADMIN_WS_MAX_ATTEMPTS),
            !connected ==> (r == AdminWsStep::PauseThenRetry <==> final(self).failures()
                < ADMIN_WS_MAX_ATTEMPTS),
            final(self).failures() <= ADMIN_WS_MAX_ATTEMPTS,
    {
        if connected {
            AdminWsStep::Available
        } else {
            self.failures = self.failures + 1;
            if self.failures == ADMIN_WS_MAX_ATTEMPTS {
                AdminWsStep::PauseThenGiveUp
            } else {
                AdminWsStep::PauseThenRetry
            }
        }
    }

    /// The error with which launching gives up.
    pub fn give_up_error() -> (r: Error)
        ensures
            r matches Error::AdminWebsocketError(m) && m@ == "Can't connect to holochain"@,
    {
        Error::AdminWebsocketError(String::from_str("Can't connect to holochain"))
    }
}

/// The tag under which the device seed is kept in the keystore.
pub const DEVICE_SEED_LAIR_KEYSTORE_TAG: &'static str = "DEVICE_SEED";

/// Whether the keystore needs a new device seed: when none is kept under the tag yet.
pub fn needs_device_seed(seed_already_exists: bool) -> (r: bool)
    ensures
        r == !seed_already_exists,
{
    !seed_already_exists
}

} // verus!
