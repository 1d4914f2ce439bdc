//! Channel handshake checks and the registry of open channels.
use vstd::prelude::*;
use crate::error::ContractError;

verus! {

/// The protocol version both ends of a channel must agree on.
pub const CATALYST_V1_CHANNEL_VERSION: &'static str = "catalyst-v1";

/// One end of a channel.
#[derive(Debug)]
pub struct IbcEndpoint {
    pub port_id: String,
    pub channel_id: String,
}

/// A channel as the transport describes it during the handshake.
#[derive(Debug)]
pub struct IbcChannel {
    pub endpoint: IbcEndpoint,
    pub counterparty_endpoint: IbcEndpoint,
    pub version: String,
    pub connection_id: String,
}

/// What the registry keeps of an open channel.
#[derive(Debug)]
pub struct IbcChannelInfo {
    pub endpoint: IbcEndpoint,
    pub counterparty_endpoint: IbcEndpoint,
    pub connection_id: String,
}

/// The version a channel must carry.
pub open spec fn channel_version() -> Seq<char> {
    CATALYST_V1_CHANNEL_VERSION@
}

/// The outcome of the version check: the first of the local and the
/// counterparty version (when given) that is not the protocol's is refused.
pub open spec fn version_check(local: Seq<char>, counterparty: Option<Seq<char>>) -> Result<
    (),
    Seq<char>,
> {
    if local != channel_version() {
        Err(local)
    } else {
        match counterparty {
            Some(v) => if v != channel_version() {
                Err(v)
            } else {
                Ok(())
            },
            None => Ok(()),
        }
    }
}

/// The check's outcome as the contract error that carries the refused version.
pub open spec fn version_result_matches(r: Result<(), ContractError>, expected: Result<(), Seq<char>>) -> bool {
    match (r, expected) {
        (Ok(()), Ok(())) => true,
        (Err(ContractError::InvalidIbcChannelVersion { version }), Err(v)) => version@ == v,
        _ => false,
    }
}

/// Checks the local and, when already advertised, the counterparty version.
pub fn validate_ibc_channel_config(channel: &IbcChannel, counterparty_version: Option<&String>) -> (r:
    Result<(), ContractError>)
    ensures
        version_result_matches(
            r,
            version_check(
                channel.version@,
                match counterparty_version {
                    Some(v) => Some(v@),
                    None => None,
                },
            ),
        ),
{
    let expected: String = CATALYST_V1_CHANNEL_VERSION.to_owned();
    if channel.version != expected {
        return Err(ContractError::InvalidIbcChannelVersion { version: channel.version.clone() });
    }
    match counterparty_version {
        Some(v) => {
            if *v != expected {
                return Err(ContractError::InvalidIbcChannelVersion { version: v.clone() });
            }
        },
        None => {},
    }
    Ok(())
}

/// The channels that are open, keyed by local channel id.
pub struct ChannelRegistry {
    entries: Vec<IbcChannelInfo>,
}

pub open spec fn info_key(e: IbcChannelInfo) -> Seq<char> {
    e.endpoint.channel_id@
}

impl View for ChannelRegistry {
    type V = Map<Seq<char>, IbcChannelInfo>;

    closed spec fn view(&self) -> Map<Seq<char>, IbcChannelInfo> {
        Map::new(
            |k: Seq<char>| exists|i: int| 0 <= i < self.entries@.len() && info_key(self.entries@[i]) == k,
            |k: Seq<char>|
                self.entries@[choose|i: int|
                    0 <= i < self.entries@.len() && info_key(self.entries@[i]) == k],
        )
    }
}

impl ChannelRegistry {
    /// No two entries share a channel id.
    pub closed spec fn wf(&self) -> bool {
        forall|i: int, j: int|
            0 <= i < j < self.entries@.len() ==> info_key(self.entries@[i]) != info_key(
                self.entries@[j],
            )
    }

    /// An empty registry.
    pub fn new() -> (r: ChannelRegistry)
        ensures
            r.wf(),
            r@ == Map::<Seq<char>, IbcChannelInfo>::empty(),
    {
        let r = ChannelRegistry { entries: Vec::new() };
        assert(r@ =~= Map::<Seq<char>, IbcChannelInfo>::empty());
        r
    }

    fn position(&self, channel_id: &String) -> (r: Option<usize>)
        requires
            self.wf(),
        ensures
            match r {
                Some(i) => i < self.entries@.len() && info_key(self.entries@[i as int])
                    == channel_id@,
                None => !self@.contains_key(channel_id@),
            },
    {
        let mut i: usize = 0;
        while i < self.entries.len()
            invariant
                i <= self.entries@.len(),
                forall|j: int| 0 <= j < i ==> info_key(self.entries@[j]) != channel_id@,
            decreases self.entries@.len() - i,
        {
            if self.entries[i].endpoint.channel_id == *channel_id {
                return Some(i);
            }
            i = i + 1;
        }
        None
    }

    /// The metadata of an open channel.
    pub fn lookup(&self, channel_id: &String) -> (r: Option<&IbcChannelInfo>)
        requires
            self.wf(),
        ensures
            match r {
                Some(e) => self@.contains_key(channel_id@) && self@[channel_id@] == *e,
                None => !self@.contains_key(channel_id@),
            },
    {
        match self.position(channel_id) {
            Some(i) => {
                proof {
                    let j = choose|j: int|
                        0 <= j < self.entries@.len() && info_key(self.entries@[j]) == channel_id@;
                    assert(j == i);
                }
                Some(&self.entries[i])
            },
            None => None,
        }
    }

    /// Records a channel, replacing what was kept under its id.
    pub fn save(&mut self, info: IbcChannelInfo)
        requires
            old(self).wf(),
        ensures
            final(self).wf(),
            final(self)@ == old(self)@.insert(info_key(info), info),
    {
        let ghost k = info_key(info);
        let ghost before = self@;
        match self.position(&info.endpoint.channel_id) {
            Some(i) => {
                self.entries.set(i, info);
                proof {
                    assert forall|k2: Seq<char>| #[trigger] self@.contains_key(k2) && k2 != k
                        implies before.contains_key(k2) && self@[k2] == before[k2] by {
                        let j = choose|j: int|
                            0 <= j < self.entries@.len() && info_key(self.entries@[j]) == k2;
                        assert(j != i);
                        assert(old(self).entries@[j] == self.entries@[j]);
                        let j0 = choose|j0: int|
                            0 <= j0 < old(self).entries@.len() && info_key(
                                old(self).entries@[j0],
                            ) == k2;
                        assert(j0 == j);
                    }
                    assert forall|k2: Seq<char>| #[trigger] before.contains_key(k2) && k2 != k
                        implies self@.contains_key(k2) by {
                        let j0 = choose|j0: int|
                            0 <= j0 < old(self).entries@.len() && info_key(old(self).entries@[j0])
                                == k2;
                        assert(j0 != i);
                        assert(info_key(self.entries@[j0]) == k2);
                    }
                    assert(self@.contains_key(k)) by {
                        assert(info_key(self.entries@[i as int]) == k);
                    }
                    let ji = choose|j: int|
                        0 <= j < self.entries@.len() && info_key(self.entries@[j]) == k;
                    assert(ji == i);
                    assert(self@ =~= before.insert(k, info));
                }
            },
            None => {
                self.entries.push(info);
                proof {
                    let n = old(self).entries@.len();
                    assert forall|k2: Seq<char>| #[trigger] self@.contains_key(k2) && k2 != k
                        implies before.contains_key(k2) && self@[k2] == before[k2] by {
                        let j = choose|j: int|
                            0 <= j < self.entries@.len() && info_key(self.entries@[j]) == k2;
                        assert(j != n);
                        assert(old(self).entries@[j] == self.entries@[j]);
                        let j0 = choose|j0: int|
                            0 <= j0 < old(self).entries@.len() && info_key(
                                old(self).entries@[j0],
                            ) == k2;
                        assert(self.entries@[j0] == old(self).entries@[j0]);
                        assert(j0 == j);
                    }
                    assert forall|k2: Seq<char>| #[trigger] before.contains_key(k2) && k2 != k
                        implies self@.contains_key(k2) by {
                        let j0 = choose|j0: int|
                            0 <= j0 < old(self).entries@.len() && info_key(old(self).entries@[j0])
                                == k2;
                        assert(self.entries@[j0] == old(self).entries@[j0]);
                    }
                    assert(self@.contains_key(k)) by {
                        assert(info_key(self.entries@[n as int]) == k);
                    }
                    let ji = choose|j: int|
                        0 <= j < self.entries@.len() && info_key(self.entries@[j]) == k;
                    if ji != n {
                        assert(old(self).entries@[ji] == self.entries@[ji]);
                    }
                    assert(ji == n);
                    assert(self@ =~= before.insert(k, info));
                }
            },
        }
    }

    /// Forgets a channel; forgetting an unknown channel does nothing.
    pub fn remove(&mut self, channel_id: &String)
        requires
            old(self).wf(),
        ensures
            final(self).wf(),
            final(self)@ == old(self)@.remove(channel_id@),
    {
        let ghost k = channel_id@;
        let ghost before = self@;
        match self.position(channel_id) {
            Some(i) => {
                self.entries.remove(i);
                proof {
                    let old_e = old(self).entries@;
                    let new_e = self.entries@;
                    assert(forall|j: int| 0 <= j < i ==> new_e[j] == old_e[j]);
                    assert(forall|j: int| i <= j < new_e.len() ==> new_e[j] == old_e[j + 1]);
                    assert forall|k2: Seq<char>| #[trigger] self@.contains_key(k2) implies k2 != k
                        && before.contains_key(k2) && self@[k2] == before[k2] by {
                        let j = choose|j: int| 0 <= j < new_e.len() && info_key(new_e[j]) == k2;
                        let oj = if j < i {
                            j
                        } else {
                            j + 1
                        };
                        assert(old_e[oj] == new_e[j]);
                        assert(oj != i);
                        let j0 = choose|j0: int|
                            0 <= j0 < old_e.len() && info_key(old_e[j0]) == k2;
                        assert(j0 == oj);
                    }
                    assert forall|k2: Seq<char>| #[trigger] before.contains_key(k2) && k2 != k
                        implies self@.contains_key(k2) by {
                        let j0 = choose|j0: int|
                            0 <= j0 < old_e.len() && info_key(old_e[j0]) == k2;
                        assert(j0 != i);
                        if j0 < i {
                            assert(info_key(new_e[j0]) == k2);
                        } else {
                            assert(info_key(new_e[j0 - 1]) == k2);
                        }
                    }
                    assert(self@ =~= before.remove(k));
                }
            },
            None => {
                assert(self@ =~= before.remove(k));
            },
        }
    }
}

} // verus!
