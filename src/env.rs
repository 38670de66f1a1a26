//! Player arguments that come from the configuration.

use vstd::prelude::*;
use crate::text::{str_eq, views};

verus! {

/// The view of an optional text.
pub open spec fn opt_view(o: Option<&str>) -> Option<Seq<char>> {
    match o {
        Some(s) => Some(s@),
        None => None,
    }
}

/// The volume argument: the configured volume, 50 when none is set.
pub open spec fn volume_arg(volume: Option<Seq<char>>) -> Seq<char> {
    match volume {
        Some(v) => "--volume="@ + v,
        None => "--volume="@ + "50"@,
    }
}

/// The video argument: video is off unless the configuration turns it on;
/// a set value other than `false` leaves an empty argument.
pub open spec fn video_arg(video: Option<Seq<char>>) -> Seq<char> {
    match video {
        None => "--no-video"@,
        Some(v) => if v == "false"@ {
            "--no-video"@
        } else {
            ""@
        },
    }
}

/// The player arguments taken from the configured default volume and video
/// switch.
pub fn get_env_mpv_args(volume: Option<&str>, video: Option<&str>) -> (r: Vec<String>)
    ensures
        views(r@) == seq![volume_arg(opt_view(volume)), video_arg(opt_view(video))],
{
    let mut args: Vec<String> = Vec::new();
    let vol = match volume {
        Some(v) => String::from_str("--volume=").concat(v),
        None => String::from_str("--volume=").concat("50"),
    };
    args.push(vol);
    let vid = match video {
        None => String::from_str("--no-video"),
        Some(v) => if str_eq(v, "false") {
            String::from_str("--no-video")
        } else {
            String::new()
        },
    };
    args.push(vid);
    proof {
        reveal_strlit("");
        assert(""@ =~= Seq::<char>::empty());
        assert(vol@ == volume_arg(opt_view(volume)));
        assert(vid@ == video_arg(opt_view(video)));
        assert(views(args@) =~= seq![volume_arg(opt_view(volume)), video_arg(opt_view(video))]);
    }
    args
}

} // verus!
