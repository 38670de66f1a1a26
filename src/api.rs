//! The player session: its persisted state, the arguments it starts the
//! player with, and the values its remote commands send or show.

use vstd::prelude::*;
use crate::error::Error;
use crate::text::{split_on, split_on_char, str_eq, strings_from, views};

verus! {

/// The state that persists between invocations.
#[derive(Debug, Clone, PartialEq, Eq)]
pub struct Data {
    pub running: bool,
    pub logging_enabled: bool,
    /// The arguments the player is started with; the target is added last.
    pub mpv_args: Vec<String>,
    /// The target most recently assigned.
    pub url: Option<String>,
    pub elapsed_seconds: u64,
}

/// The argument that points the player's control socket at `socket`.
pub open spec fn ipc_arg(socket: Seq<char>) -> Seq<char> {
    "--input-ipc-server="@ + socket
}

/// The arguments of a fresh session: no terminal output, the control
/// socket, then the configured arguments.
pub open spec fn default_args(socket: Seq<char>, configured: Seq<Seq<char>>) -> Seq<Seq<char>> {
    seq!["--no-terminal"@, ipc_arg(socket)] + configured
}

impl Data {
    /// The arguments name the control socket at `socket`.
    pub open spec fn holds_socket(&self, socket: Seq<char>) -> bool {
        views(self.mpv_args@).contains(ipc_arg(socket))
    }
}

/// What became of the stored session state at load time.
#[derive(Debug, Clone, Copy, PartialEq, Eq)]
pub enum LoadOutcome {
    /// The stored state replaced the live one.
    Restored,
    /// Nothing was stored; the live state stays and is to be written out.
    Missing,
    /// The stored state does not name this session's control socket; the
    /// live state stays.
    Rejected,
}

/// A session with the external player: its state, the path of its control
/// socket, and whether a control connection is open.
#[derive(Debug, Clone, PartialEq, Eq)]
pub struct Player {
    pub data: Data,
    pub socket: String,
    pub connected: bool,
}

/// The volume the player receives: the request clamped to `[0, 100]`.
pub open spec fn clamped_volume(v: int) -> int {
    if v < 0 {
        0
    } else if v > 100 {
        100
    } else {
        v
    }
}

/// The playback position as a whole percentage of the duration. A
/// position or duration that could not be read, or a zero duration, gives
/// 100.
pub open spec fn percentage(current: Option<u64>, duration: Option<u64>) -> int {
    match (current, duration) {
        (Some(c), Some(d)) => if d == 0 {
            100
        } else {
            c * 100 / (d as int)
        },
        _ => 100,
    }
}

/// The arguments of the video downloader: the configured extra arguments
/// split at each space, then the page address of `url`, then `url`.
pub open spec fn download_args(extra: Seq<char>, url: Seq<char>) -> Seq<Seq<char>> {
    split_on(extra, ' ') + seq!["youtube.com/"@ + url, url]
}

/// The end of the last occurrence of a non-empty `pat` within the first `n` characters
/// of `s`.
pub open spec fn last_match_end(s: Seq<char>, pat: Seq<char>, n: int) -> Option<int>
    decreases n,
{
    if pat.len() == 0 || n < pat.len() || n > s.len() {
        None
    } else if s.subrange(n - pat.len(), n) == pat {
        Some(n)
    } else {
        last_match_end(s, pat, n - 1)
    }
}

/// The text after the last `watch?v=` of a video address: its id. An
/// address without one is taken whole.
pub open spec fn video_id(path: Seq<char>) -> Seq<char> {
    match last_match_end(path, "watch?v="@, path.len() as int) {
        Some(k) => path.skip(k),
        None => path,
    }
}

/// The address of the thumbnail of the video at `path`.
pub open spec fn thumbnail_address(path: Seq<char>) -> Seq<char> {
    "https://i.ytimg.com/vi/"@ + video_id(path) + "/hqdefault.jpg"@
}

/// Relies on rand's `thread_rng().gen_range(low..high)`, which returns a
/// value in `[low, high)` and panics on an empty range.
#[verifier::external_body]
fn draw_in_range(low: usize, high: usize) -> (r: usize)
    requires
        low < high,
    ensures
        low <= r < high,
{
    rand::Rng::gen_range(&mut rand::thread_rng(), low..high)
}

impl Player {
    /// The session is well formed: its arguments name its control socket.
    pub open spec fn wf(&self) -> bool {
        self.data.holds_socket(self.socket@)
    }

    /// A fresh session for the player whose control socket is at `socket`,
    /// with the configured player arguments, no target and no connection.
    pub fn new(socket: &str, configured: Vec<String>) -> (r: Player)
        ensures
            r.wf(),
            r.socket@ == socket@,
            views(r.data.mpv_args@) == default_args(socket@, views(configured@)),
            r.data.url is None,
            !r.data.running,
            !r.data.logging_enabled,
            r.data.elapsed_seconds == 0,
            !r.connected,
    {
        let mut args: Vec<String> = Vec::new();
        args.push(String::from_str("--no-terminal"));
        args.push(String::from_str("--input-ipc-server=").concat(socket));
        let mut i: usize = 0;
        assert(views(args@) =~= default_args(socket@, views(configured@.take(0))));
        while i < configured.len()
            invariant
                i <= configured@.len(),
                views(args@) == default_args(socket@, views(configured@.take(i as int))),
            decreases configured@.len() - i,
        {
            let ghost before = args@;
            args.push(configured[i].clone());
            assert(views(args@) =~= views(before).push(configured@[i as int]@));
            assert(configured@.take(i + 1) =~= configured@.take(i as int).push(configured@[i as int]));
            assert(views(args@) =~= default_args(socket@, views(configured@.take(i + 1))));
            i = i + 1;
        }
        assert(configured@.take(configured@.len() as int) =~= configured@);
        assert(views(args@)[1] == ipc_arg(socket@));
        let data = Data {
            running: false,
            logging_enabled: false,
            mpv_args: args,
            url: None,
            elapsed_seconds: 0,
        };
        Player { data, socket: String::from_str(socket), connected: false }
    }

    /// The argument list to start the player with: the session's arguments
    /// followed by the target, which is `url` when given and the session's
    /// own target otherwise. Without either target there is nothing to
    /// play.
    pub fn start(&self, url: Option<String>) -> (r: Result<Vec<String>, Error>)
        ensures
            url is None && self.data.url is None ==> (r matches Err(Error::ExecuteErr(m)) && m@
                == "url is empty"@),
            url is Some ==> (r is Ok && r->Ok_0@ == self.data.mpv_args@.push(url->0)),
            url is None && self.data.url is Some ==> (r is Ok && r->Ok_0@
                == self.data.mpv_args@.push(self.data.url->0)),
    {
        let target = match url {
            Some(u) => u,
            None => match &self.data.url {
                Some(u) => u.clone(),
                None => {
                    return Err(Error::ExecuteErr(String::from_str("url is empty")));
                },
            },
        };
        let mut argv = strings_from(&self.data.mpv_args, 0);
        assert(self.data.mpv_args@.skip(0) =~= self.data.mpv_args@);
        argv.push(target);
        Ok(argv)
    }

    /// Records whether a control connection is open.
    pub fn set_connected(&mut self, connected: bool)
        ensures
            final(self).connected == connected,
            final(self).data == old(self).data,
            final(self).socket == old(self).socket,
    {
        self.connected = connected;
    }

    /// What loading `stored` into this session comes to.
    pub open spec fn load_outcome(&self, stored: Option<Data>) -> LoadOutcome {
        match stored {
            None => LoadOutcome::Missing,
            Some(d) => if d.holds_socket(self.socket@) {
                LoadOutcome::Restored
            } else {
                LoadOutcome::Rejected
            },
        }
    }

    /// The session state after loading `stored`.
    pub open spec fn loaded_data(&self, stored: Option<Data>) -> Data {
        match stored {
            Some(d) => if d.holds_socket(self.socket@) {
                d
            } else {
                self.data
            },
            None => self.data,
        }
    }

    /// Takes over the session state read back from the store. Nothing
    /// stored leaves the live state, which is then to be written out; a
    /// stored state that does not name this session's control socket is
    /// refused.
    pub fn load_session(&mut self, stored: Option<Data>) -> (r: LoadOutcome)
        requires
            old(self).wf(),
        ensures
            final(self).wf(),
            final(self).socket == old(self).socket,
            final(self).connected == old(self).connected,
            r == old(self).load_outcome(stored),
            final(self).data == old(self).loaded_data(stored),
    {
        match stored {
            None => LoadOutcome::Missing,
            Some(d) => {
                let wanted = String::from_str("--input-ipc-server=").concat(self.socket.as_str());
                let mut found = false;
                let mut i: usize = 0;
                while i < d.mpv_args.len()
                    invariant
                        i <= d.mpv_args@.len(),
                        wanted@ == ipc_arg(self.socket@),
                        found <==> exists|k: int| 0 <= k < i && #[trigger] views(d.mpv_args@)[k] == wanted@,
                    decreases d.mpv_args@.len() - i,
                {
                    let hit = str_eq(d.mpv_args[i].as_str(), wanted.as_str());
                    assert(views(d.mpv_args@)[i as int] == d.mpv_args@[i as int]@);
                    found = found || hit;
                    i = i + 1;
                }
                if found {
                    self.data = d;
                    LoadOutcome::Restored
                } else {
                    LoadOutcome::Rejected
                }
            },
        }
    }

    /// The volume to send for a requested volume: clamped to `[0, 100]`.
    pub fn volume(requested: i64) -> (r: u64)
        ensures
            r == clamped_volume(requested as int),
    {
        if requested < 0 {
            0
        } else if requested > 100 {
            100
        } else {
            requested as u64
        }
    }

    /// The percentage to show for a playback position and a duration, in
    /// whole seconds, either of which may be unknown.
    pub fn get_procentage(current: Option<u64>, duration: Option<u64>) -> (r: u128)
        ensures
            r == percentage(current, duration),
    {
        match (current, duration) {
            (Some(c), Some(d)) => if d == 0 {
                100
            } else {
                (c as u128 * 100) / (d as u128)
            },
            _ => 100,
        }
    }

    /// Draws the playlist position to jump to in a playlist of `count`
    /// entries, from `[1, count)`: positions 0 and `count` are never drawn.
    /// A playlist of fewer than two entries leaves nothing to draw from.
    pub fn rand(count: usize) -> (r: Result<usize, Error>)
        ensures
            count < 2 <==> r is Err,
            r is Err ==> r->Err_0 is ExecuteErr,
            r is Ok ==> 1 <= r->Ok_0 < count,
    {
        if count < 2 {
            Err(Error::ExecuteErr(String::from_str("playlist too short to pick from")))
        } else {
            Ok(draw_in_range(1, count))
        }
    }

    /// The title to show: the media title, or `none` when it could not be
    /// read.
    pub fn print(title: Option<String>) -> (r: String)
        ensures
            title is Some ==> r == title->0,
            title is None ==> r@ == "none"@,
    {
        match title {
            Some(t) => t,
            None => String::from_str("none"),
        }
    }

    /// The downloader's arguments for the entry `url`, after the configured
    /// extra arguments.
    pub fn downland(extra: &str, url: &str) -> (r: Vec<String>)
        ensures
            views(r@) == download_args(extra@, url@),
    {
        let mut args = split_on_char(extra, ' ');
        args.push(String::from_str("youtube.com/").concat(url));
        args.push(String::from_str(url));
        assert(views(args@) =~= download_args(extra@, url@));
        args
    }

    /// The address of the thumbnail of the video that `path` plays.
    pub fn thumbnail_url(path: &str) -> (r: String)
        ensures
            r@ == thumbnail_address(path@),
    {
        let pat = "watch?v=";
        proof {
            reveal_strlit("watch?v=");
        }
        let n = path.unicode_len();
        let m = pat.unicode_len();
        let mut k: usize = n;
        let mut found = false;
        while k >= m && !found
            invariant
                n == path@.len(),
                m == pat@.len(),
                m == 8,
                k <= n,
                found ==> last_match_end(path@, pat@, n as int) == Some(k as int),
                !found ==> last_match_end(path@, pat@, n as int) == last_match_end(
                    path@,
                    pat@,
                    k as int,
                ),
            decreases k + (if found { 0int } else { 1int }),
        {
            if str_eq(path.substring_char(k - m, k), pat) {
                found = true;
            } else {
                k = k - 1;
            }
        }
        let id = if found {
            path.substring_char(k, n)
        } else {
            path
        };
        proof {
            if found {
                assert(id@ =~= path@.skip(k as int));
            } else {
                assert(last_match_end(path@, pat@, k as int) is None);
            }
        }
        String::from_str("https://i.ytimg.com/vi/").concat(id).concat("/hqdefault.jpg")
    }
}

/// Saving a well-formed session and loading it back into a session on the
/// same control socket gives exactly what was saved. Loading where nothing
/// was saved keeps the live state, fresh defaults included, and asks for it
/// to be written out.
pub proof fn lemma_session_round_trip(saved: Player, live: Player)
    requires
        saved.wf(),
        live.socket@ == saved.socket@,
    ensures
        live.load_outcome(Some(saved.data)) == LoadOutcome::Restored,
        live.loaded_data(Some(saved.data)) == saved.data,
        live.load_outcome(None) == LoadOutcome::Missing,
        live.loaded_data(None) == live.data,
{
}

} // verus!
