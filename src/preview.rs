use vstd::prelude::*;
use crate::feed::{VideoView, YTVideo};
use crate::overlay::OverlayCommand;

verus! {

/// What to do first when a video is highlighted: the overlay commands to
/// send now, and whether its thumbnail must be downloaded.
pub struct ThumbnailStart {
    pub commands: Vec<OverlayCommand>,
    pub download: bool,
}

/// The commands sent before any download: a cached thumbnail is shown at
/// once; otherwise the stale image is cleared while the new one loads.
pub open spec fn start_commands(id: String, width: usize, cached: bool) -> Seq<OverlayCommand> {
    if cached {
        seq![OverlayCommand::Add(id, width)]
    } else {
        seq![OverlayCommand::Remove]
    }
}

/// The commands sent once a download has ended: the image, if it came.
pub open spec fn done_commands(id: String, width: usize, downloaded: bool) -> Seq<OverlayCommand> {
    if downloaded {
        seq![OverlayCommand::Add(id, width)]
    } else {
        Seq::empty()
    }
}

impl YTVideo {
    /// First step of showing the video's thumbnail.
    pub fn thumbnail_start(&self, width: usize, cached: bool) -> (r: ThumbnailStart)
        ensures
            r.commands@ == start_commands(self.id, width, cached),
            r.download == !cached,
    {
        let mut commands: Vec<OverlayCommand> = Vec::new();
        if cached {
            commands.push(OverlayCommand::Add(self.id.clone(), width));
        } else {
            commands.push(OverlayCommand::Remove);
        }
        assert(commands@ =~= start_commands(self.id, width, cached));
        ThumbnailStart { commands, download: !cached }
    }

    /// Last step of showing the thumbnail, after a download was tried.
    pub fn thumbnail_done(&self, width: usize, downloaded: bool) -> (r: Vec<OverlayCommand>)
        ensures
            r@ == done_commands(self.id, width, downloaded),
    {
        let mut commands: Vec<OverlayCommand> = Vec::new();
        if downloaded {
            commands.push(OverlayCommand::Add(self.id.clone(), width));
        }
        assert(commands@ =~= done_commands(self.id, width, downloaded));
        commands
    }
}

/// All commands that showing a thumbnail sends, in order: for a cached one
/// just `Add`; else `Remove`, then `Add` once the download succeeded.
pub proof fn lemma_thumbnail_commands(id: String, width: usize, cached: bool, downloaded: bool)
    ensures
        start_commands(id, width, cached) + (if !cached {
            done_commands(id, width, downloaded)
        } else {
            Seq::empty()
        }) == (if cached {
            seq![OverlayCommand::Add(id, width)]
        } else if downloaded {
            seq![OverlayCommand::Remove, OverlayCommand::Add(id, width)]
        } else {
            seq![OverlayCommand::Remove]
        }),
{
    if cached {
        assert(seq![OverlayCommand::Add(id, width)] + Seq::<OverlayCommand>::empty() =~= seq![
            OverlayCommand::Add(id, width),
        ]);
    } else if downloaded {
        assert(seq![OverlayCommand::Remove] + seq![OverlayCommand::Add(id, width)] =~= seq![
            OverlayCommand::Remove,
            OverlayCommand::Add(id, width),
        ]);
    } else {
        assert(seq![OverlayCommand::Remove] + Seq::<OverlayCommand>::empty() =~= seq![
            OverlayCommand::Remove,
        ]);
    }
}

/// Text in bold, as terminal escape codes mark it.
pub open spec fn bold_of(s: Seq<char>) -> Seq<char> {
    "\u{1b}[1m"@ + s + "\u{1b}[0m"@
}

/// Relies on `ansi_term::Style::bold` and `paint`: the text between the bold
/// code and the reset code.
#[verifier::external_body]
fn bold(s: &str) -> (r: String)
    ensures
        r@ == bold_of(s@),
{
    ansi_term::Style::new().bold().paint(s).to_string()
}

pub open spec fn blank_lines(n: nat) -> Seq<char> {
    Seq::new(n, |i: int| '\n')
}

/// The preview pane's text: room for the thumbnail when one is drawn (a
/// quarter of the pane's width, plus one, in lines), the title and author in
/// bold, the publication time as given, and the description.
pub open spec fn preview_of(v: VideoView, width: nat, thumbnails: bool, when: Seq<char>) -> Seq<char> {
    (if thumbnails {
        blank_lines(width / 4 + 1)
    } else {
        Seq::empty()
    }) + bold_of(v.title) + "\n"@ + bold_of(v.author) + " | "@ + when + "\n\n"@ + v.description
}

impl YTVideo {
    /// The preview pane's text for this video; `when` is its publication time
    /// as shown to the user.
    pub fn preview(&self, width: usize, thumbnails: bool, when: &str) -> (r: String)
        ensures
            r@ == preview_of(self@, width as nat, thumbnails, when@),
    {
        let mut s = String::new();
        if thumbnails {
            let n: usize = width / 4 + 1;
            let mut k: usize = 0;
            while k < n
                invariant
                    k <= n,
                    s@ == blank_lines(k as nat),
                decreases n - k,
            {
                proof {
                    reveal_strlit("\n");
                }
                s.append("\n");
                assert(s@ =~= blank_lines((k + 1) as nat));
                k = k + 1;
            }
        }
        assert(s@ =~= (if thumbnails {
            blank_lines(width as nat / 4 + 1)
        } else {
            Seq::empty()
        }));
        let t = bold(self.title.as_str());
        s.append(t.as_str());
        s.append("\n");
        let a = bold(self.author.as_str());
        s.append(a.as_str());
        s.append(" | ");
        s.append(when);
        s.append("\n\n");
        s.append(self.description.as_str());
        s
    }
}

} // verus!
