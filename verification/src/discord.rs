//! Discord Rich Presence: which application the launcher presents as, what activity it shows,
//! how messages to Discord's IPC socket are framed, and when the connection is made or dropped.
use vstd::prelude::*;

use crate::text::{append_str, to_owned, trim};

verus! {

/// The Discord application the launcher presents as unless told otherwise.
pub const DEFAULT_APPLICATION_ID: &'static str = "1522327079381631067";

/// The application id: the environment's, else the file's (each trimmed, when not empty),
/// else the default.
pub open spec fn spec_application_id(env: Option<Seq<char>>, file: Option<Seq<char>>) -> Seq<char> {
    if env is Some && trim(env->0).len() > 0 {
        trim(env->0)
    } else if file is Some && trim(file->0).len() > 0 {
        trim(file->0)
    } else {
        DEFAULT_APPLICATION_ID@
    }
}

/// The application id, from the `QUARTZ_DISCORD_APPLICATION_ID` environment variable and the
/// `discord_application_id` file of the launcher's folder, when they were read.
pub fn resolve_application_id(env: Option<&str>, file: Option<&str>) -> (res: Option<String>)
    ensures
        res matches Some(id) && id@ == spec_application_id(
            match env {
                Some(e) => Some(e@),
                None => None,
            },
            match file {
                Some(f) => Some(f@),
                None => None,
            },
        ),
{
    match env {
        Some(e) => {
            let t = crate::text::str_trim(e);
            if t.len() > 0 {
                return Some(crate::text::string_of(t.as_slice()));
            }
        },
        None => {},
    }
    match file {
        Some(f) => {
            let t = crate::text::str_trim(f);
            if t.len() > 0 {
                return Some(crate::text::string_of(t.as_slice()));
            }
        },
        None => {},
    }
    Some(to_owned(DEFAULT_APPLICATION_ID))
}

/// An activity to show: its two lines.
pub struct Activity {
    pub details: String,
    pub state: String,
}

/// The activity while in the launcher.
pub fn set_idle() -> (res: Activity)
    ensures
        res.details@ == "Quartz Launcher"@,
        res.state@ == "In the launcher"@,
{
    Activity { details: to_owned("Quartz Launcher"), state: to_owned("In the launcher") }
}

/// The activity while playing an instance: `"{loader} · {version}"`, then the instance's
/// name.
pub fn set_playing(instance_name: &str, loader: &str, minecraft_version: &str) -> (res: Activity)
    ensures
        res.details@ == loader@ + " · "@ + minecraft_version@,
        res.state@ == instance_name@,
{
    let mut details = to_owned(loader);
    append_str(&mut details, " · ");
    append_str(&mut details, minecraft_version);
    Activity { details, state: to_owned(instance_name) }
}

/// The four bytes of a number, least significant first.
pub open spec fn le_bytes(n: u32) -> Seq<u8> {
    seq![(n % 256) as u8, ((n / 256) % 256) as u8, ((n / 65536) % 256) as u8, (n / 16777216) as u8]
}

fn push_le(out: &mut Vec<u8>, n: u32)
    ensures
        final(out)@ == old(out)@ + le_bytes(n),
{
    out.push((n % 256) as u8);
    out.push(((n / 256) % 256) as u8);
    out.push(((n / 65536) % 256) as u8);
    out.push((n / 16777216) as u8);
    assert(final(out)@ =~= old(out)@ + le_bytes(n));
}

/// A frame of Discord's IPC protocol: the opcode and the payload's length (as a `u32`,
/// wrapping), little-endian, then the payload.
pub fn encode_frame(opcode: u32, payload: &[u8]) -> (res: Vec<u8>)
    ensures
        res@ == le_bytes(opcode) + le_bytes((payload@.len() % 0x1_0000_0000) as u32) + payload@,
{
    let mut out: Vec<u8> = Vec::new();
    push_le(&mut out, opcode);
    let len = payload.len() as u64;
    let wrapped = (len % 0x1_0000_0000) as u32;
    push_le(&mut out, wrapped);
    let ghost before = out@;
    for i in 0..payload.len()
        invariant
            out@ == before + payload@.take(i as int),
    {
        out.push(payload[i]);
        assert(payload@.take(i + 1) =~= payload@.take(i as int).push(payload@[i as int]));
    }
    assert(payload@.take(payload@.len() as int) =~= payload@);
    out
}

/// The opcode of the handshake frame.
pub const HANDSHAKE_OPCODE: u32 = 0;

/// The opcode of a command frame.
pub const FRAME_OPCODE: u32 = 1;

/// The connection to Discord: the application presented as, and whether the handshake was
/// sent on an open socket.
pub struct DiscordRpcState {
    pub application_id: Option<String>,
    pub connected: bool,
}

/// What to do to show an activity.
pub enum ActivityStep {
    /// Already connected: send the activity.
    Send,
    /// Not connected: open the socket and send the handshake with this client id, then the
    /// activity.
    Connect { client_id: String },
    /// No application to present as: do nothing.
    Skip,
}

impl DiscordRpcState {
    /// Not connected, presenting as the given application.
    pub fn new(application_id: Option<String>) -> (res: Self)
        ensures
            res.application_id == application_id,
            !res.connected,
    {
        DiscordRpcState { application_id, connected: false }
    }

    /// What to do to show an activity: send it when connected; else connect when there is an
    /// application to present as.
    pub fn next_step(&self) -> (res: ActivityStep)
        ensures
            self.connected ==> res is Send,
            !self.connected ==> match self.application_id {
                Some(id) => res matches ActivityStep::Connect { client_id } && client_id@ == id@,
                None => res is Skip,
            },
    {
        if self.connected {
            return ActivityStep::Send;
        }
        match &self.application_id {
            Some(id) => ActivityStep::Connect { client_id: to_owned(id.as_str()) },
            None => ActivityStep::Skip,
        }
    }

    /// The socket was opened and the handshake sent (or not): connected exactly when it
    /// was; returns whether to go on and send the activity.
    pub fn handshake_done(&mut self, ok: bool) -> (res: bool)
        ensures
            res == ok,
            final(self).connected == (old(self).connected || ok),
            final(self).application_id == old(self).application_id,
    {
        if ok {
            self.connected = true;
        }
        ok
    }

    /// The activity was sent (or not): a failed send drops the connection.
    pub fn activity_sent(&mut self, ok: bool)
        ensures
            final(self).connected == (old(self).connected && ok),
            final(self).application_id == old(self).application_id,
    {
        if !ok {
            self.connected = false;
        }
    }
}

} // verus!
