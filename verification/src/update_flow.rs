//! The update flow: check, download, restart.

use vstd::prelude::*;
use crate::templates::{first_line, first_line_of};
use crate::text::{chars_of, decimal, decimal_text, joined, string_of, trim_spec, trim_text};
use crate::wrap::{bytes_before, lemma_bytes_grow, utf8_len};

verus! {

/// Where the update flow is.
#[derive(Debug)]
pub enum UpdateState {
    Idle,
    Checking,
    /// Downloading, with the part that is there in percent.
    Downloading { percent: u32 },
    /// The artifact is there and verified: a restart installs it.
    Ready { version: String, notes: String, artifact: String },
    Installing,
    UpToDate,
    Error { message: String },
}

/// What a check for updates found.
#[derive(Debug)]
pub enum CheckResult {
    /// A newer version, which is downloaded at once.
    Newer,
    /// Nothing newer.
    Current,
    Failed(String),
    /// The check was abandoned.
    Abandoned,
}

/// Where a check leads. A silent one only shows that there is something newer.
pub open spec fn after_check(result: CheckResult, silent: bool) -> UpdateState {
    match result {
        CheckResult::Newer => UpdateState::Downloading { percent: 0 },
        CheckResult::Current => if silent {
            UpdateState::Idle
        } else {
            UpdateState::UpToDate
        },
        CheckResult::Failed(message) => if silent {
            UpdateState::Idle
        } else {
            UpdateState::Error { message }
        },
        CheckResult::Abandoned => UpdateState::Idle,
    }
}

impl UpdateState {
    /// Whether a check or what follows it is under way, so that another one
    /// does not start.
    pub open spec fn under_way(self) -> bool {
        self is Checking || self is Downloading || self is Installing || self is Ready
    }

    /// Starts a check. False when one is under way or an update is ready.
    pub fn begin_check(&mut self) -> (r: bool)
        ensures
            r == !old(self).under_way(),
            *final(self) == (if r {
                UpdateState::Checking
            } else {
                *old(self)
            }),
    {
        match self {
            UpdateState::Checking => {
                return false;
            },
            UpdateState::Downloading { .. } => {
                return false;
            },
            UpdateState::Installing => {
                return false;
            },
            UpdateState::Ready { .. } => {
                return false;
            },
            _ => {},
        }
        *self = UpdateState::Checking;
        true
    }

    /// Takes the result of a check. A silent check only shows that there is
    /// something newer.
    pub fn finish_check(&mut self, result: CheckResult, silent: bool)
        ensures
            *final(self) == after_check(result, silent),
    {
        *self = match result {
            CheckResult::Newer => UpdateState::Downloading { percent: 0 },
            CheckResult::Current => if silent {
                UpdateState::Idle
            } else {
                UpdateState::UpToDate
            },
            CheckResult::Failed(message) => if silent {
                UpdateState::Idle
            } else {
                UpdateState::Error { message }
            },
            CheckResult::Abandoned => UpdateState::Idle,
        };
    }

    /// Notes how much of the download is there.
    pub fn progress(&mut self, percent: u32)
        ensures
            *final(self) == (UpdateState::Downloading { percent }),
    {
        *self = UpdateState::Downloading { percent };
    }

    /// Takes the outcome of the download: the verified artifact, or why there
    /// is none.
    pub fn finish_download(
        &mut self,
        version: String,
        notes: String,
        outcome: Result<String, String>,
    )
        ensures
            *final(self) == (match outcome {
                Ok(artifact) => UpdateState::Ready { version, notes, artifact },
                Err(message) => UpdateState::Error { message },
            }),
    {
        *self = match outcome {
            Ok(artifact) => UpdateState::Ready { version, notes, artifact },
            Err(message) => UpdateState::Error { message },
        };
    }

    /// Starts the installation of a ready update and hands out its artifact.
    pub fn begin_install(&mut self) -> (r: Option<String>)
        ensures
            match *old(self) {
                UpdateState::Ready { artifact, .. } => r == Some(artifact) && *final(self)
                    == UpdateState::Installing,
                _ => r is None && *final(self) == *old(self),
            },
    {
        let mut state: UpdateState = UpdateState::Installing;
        std::mem::swap(&mut state, self);
        match state {
            UpdateState::Ready { artifact, .. } => Some(artifact),
            other => {
                *self = other;
                None
            },
        }
    }

    /// Notes that the installation failed.
    pub fn fail_install(&mut self, message: String)
        ensures
            *final(self) == (UpdateState::Error { message }),
    {
        *self = UpdateState::Error { message };
    }

    /// Puts the flow back to rest.
    pub fn dismiss(&mut self)
        ensures
            *final(self) == UpdateState::Idle,
    {
        *self = UpdateState::Idle;
    }
}

/// The most bytes of release notes in the banner.
pub const NOTE_BYTES: usize = 60;

/// Whether some number of characters makes up exactly `n` bytes.
pub open spec fn boundary(s: Seq<char>, n: nat) -> bool {
    exists|k: nat| k <= s.len() && #[trigger] bytes_before(s, k) == n
}

/// The characters that make up the first `n` bytes.
pub open spec fn clipped(s: Seq<char>, n: nat) -> Seq<char> {
    s.take((choose|k: nat| k <= s.len() && #[trigger] bytes_before(s, k) == n) as int)
}

/// The first line of the release notes without the space around it.
pub open spec fn note_line(notes: Seq<char>) -> Seq<char> {
    trim_spec(first_line(notes))
}

/// The release notes in the banner: their first line, cut after
/// [`NOTE_BYTES`] bytes.
pub open spec fn note_part(notes: Seq<char>) -> Seq<char> {
    let line = note_line(notes);
    if line.len() == 0 {
        Seq::empty()
    } else if bytes_before(line, line.len()) > NOTE_BYTES {
        "  ·  "@ + clipped(line, NOTE_BYTES as nat) + "…"@
    } else {
        "  ·  "@ + line
    }
}

/// The banner of the update flow: its text, whether it has a button, and
/// whether that restarts.
#[derive(Debug)]
pub struct Banner {
    pub text: String,
    pub action: Option<BannerAction>,
}

/// What the button of the banner does.
#[derive(Clone, Copy, Debug, PartialEq, Eq, Structural)]
pub enum BannerAction {
    Restart,
    Dismiss,
}

/// The text of the banner and its button; nothing while at rest or checking.
pub open spec fn banner_of(
    s: UpdateState,
    current: Seq<char>,
) -> Option<(Seq<char>, Option<BannerAction>)> {
    match s {
        UpdateState::Idle => None,
        UpdateState::Checking => None,
        UpdateState::Downloading { percent } => Some(
            ("正在下载更新 "@ + decimal(percent as nat) + "%"@, None),
        ),
        UpdateState::Ready { version, notes, .. } => Some(
            (
                "新版本 v"@ + version@ + " 已就绪，重启以应用"@ + note_part(notes@),
                Some(BannerAction::Restart),
            ),
        ),
        UpdateState::UpToDate => Some(
            ("已是最新版本 v"@ + current, Some(BannerAction::Dismiss)),
        ),
        UpdateState::Installing => Some(("正在安装，即将重启…"@, None)),
        UpdateState::Error { message } => Some(
            ("更新失败："@ + message@, Some(BannerAction::Dismiss)),
        ),
    }
}

/// Whether the cut of the release notes falls between two characters.
pub open spec fn cut_fits(s: UpdateState) -> bool {
    match s {
        UpdateState::Ready { notes, .. } => {
            let line = note_line(notes@);
            bytes_before(line, line.len()) > NOTE_BYTES ==> boundary(line, NOTE_BYTES as nat)
        },
        _ => true,
    }
}

/// The value of a banner.
pub open spec fn banner_view(b: Option<Banner>) -> Option<(Seq<char>, Option<BannerAction>)> {
    match b {
        Some(x) => Some((x.text@, x.action)),
        None => None,
    }
}

/// The place of the character boundary after `n` bytes, when there is one.
fn cut_place(s: &Vec<char>, n: usize) -> (r: Option<usize>)
    ensures
        match r {
            Some(k) => k <= s@.len() && bytes_before(s@, k as nat) == n,
            None => !boundary(s@, n as nat),
        },
{
    let mut k: usize = 0;
    let mut bytes: usize = 0;
    while k < s.len() && bytes < n
        invariant
            k <= s@.len(),
            bytes == bytes_before(s@, k as nat),
            bytes <= n,
            forall|j: nat| j < k ==> #[trigger] bytes_before(s@, j) < n,
        decreases s.len() - k,
    {
        let w: usize = utf8_len(s[k]);
        if w > n - bytes {
            proof {
                assert forall|j: nat| j <= s@.len() implies #[trigger] bytes_before(s@, j) != n by {
                    if j > k {
                        lemma_bytes_grow(s@, (k + 1) as nat, j);
                    } else if j == k {
                    }
                }
            }
            return None;
        }
        bytes += w;
        k += 1;
    }
    if bytes == n {
        Some(k)
    } else {
        proof {
            assert forall|j: nat| j <= s@.len() implies #[trigger] bytes_before(s@, j) != n by {
                if j == k {
                }
            }
        }
        None
    }
}

proof fn lemma_cut_is_unique(s: Seq<char>, n: nat, k: nat)
    requires
        k <= s.len(),
        bytes_before(s, k) == n,
    ensures
        clipped(s, n) == s.take(k as int),
{
    let j = choose|j: nat| j <= s.len() && #[trigger] bytes_before(s, j) == n;
    if j < k {
        lemma_bytes_grow(s, j, k);
    } else if k < j {
        lemma_bytes_grow(s, k, j);
    }
}

fn whole_bytes(s: &Vec<char>, limit: usize) -> (r: bool)
    ensures
        r == (bytes_before(s@, s@.len()) > limit),
{
    let mut k: usize = 0;
    let mut bytes: usize = 0;
    while k < s.len()
        invariant
            k <= s@.len(),
            bytes == bytes_before(s@, k as nat),
            bytes <= limit,
        decreases s.len() - k,
    {
        let w: usize = utf8_len(s[k]);
        if w > limit - bytes {
            proof {
                lemma_bytes_grow(s@, (k + 1) as nat, s@.len());
            }
            return true;
        }
        bytes += w;
        k += 1;
    }
    false
}

fn note_text(notes: &str) -> (r: String)
    requires
        ({
            let line = note_line(notes@);
            bytes_before(line, line.len()) > NOTE_BYTES ==> boundary(line, NOTE_BYTES as nat)
        }),
    ensures
        r@ == note_part(notes@),
{
    let first: String = first_line_of(notes);
    let line: String = trim_text(first.as_str());
    if line.as_str().is_empty() {
        return String::new();
    }
    let chars: Vec<char> = chars_of(line.as_str());
    if !whole_bytes(&chars, NOTE_BYTES) {
        return joined("  ·  ", line.as_str());
    }
    match cut_place(&chars, NOTE_BYTES) {
        Some(k) => {
            proof {
                lemma_cut_is_unique(chars@, NOTE_BYTES as nat, k as nat);
            }
            let mut cut: Vec<char> = Vec::new();
            let mut i: usize = 0;
            while i < k
                invariant
                    i <= k <= chars@.len(),
                    cut@ == chars@.take(i as int),
                decreases k - i,
            {
                cut.push(chars[i]);
                i += 1;
                assert(chars@.take(i as int) =~= chars@.take(i - 1).push(chars@[i - 1]));
            }
            let clip: String = string_of(&cut);
            let lead: String = joined("  ·  ", clip.as_str());
            joined(lead.as_str(), "…")
        },
        None => String::new(),
    }
}

/// The banner of the update flow; `current` is the running version.
pub fn banner(s: &UpdateState, current: &str) -> (r: Option<Banner>)
    requires
        cut_fits(*s),
    ensures
        banner_view(r) == banner_of(*s, current@),
{
    match s {
        UpdateState::Idle => None,
        UpdateState::Checking => None,
        UpdateState::Downloading { percent } => {
            let n: String = decimal_text(*percent as u64);
            let lead: String = joined("正在下载更新 ", n.as_str());
            Some(Banner { text: joined(lead.as_str(), "%"), action: None })
        },
        UpdateState::Ready { version, notes, .. } => {
            let lead: String = joined("新版本 v", version.as_str());
            let text: String = joined(lead.as_str(), " 已就绪，重启以应用");
            let note: String = note_text(notes.as_str());
            Some(
                Banner {
                    text: joined(text.as_str(), note.as_str()),
                    action: Some(BannerAction::Restart),
                },
            )
        },
        UpdateState::UpToDate => Some(
            Banner {
                text: joined("已是最新版本 v", current),
                action: Some(BannerAction::Dismiss),
            },
        ),
        UpdateState::Installing => Some(
            Banner { text: "正在安装，即将重启…".to_owned(), action: None },
        ),
        UpdateState::Error { message } => Some(
            Banner {
                text: joined("更新失败：", message.as_str()),
                action: Some(BannerAction::Dismiss),
            },
        ),
    }
}

/// A silent check raises a banner only when there is something newer, and a
/// check of either sort never leaves the flow stuck in checking.
pub proof fn law_silent_checks_stay_silent(result: CheckResult, current: Seq<char>)
    ensures
        banner_of(after_check(result, true), current) is Some <==> result is Newer,
        !(after_check(result, true) is Checking),
        !(after_check(result, false) is Checking),
{
}

} // verus!
