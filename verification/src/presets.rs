//! The built-in creator presets: named export recipes, some of which fix the
//! frame size that a resize targets.

use vstd::prelude::*;
use crate::plan::text;
use crate::text::{chars_eq_str, chars_of, push_str};

verus! {

/// A named export recipe.
pub struct Preset {
    pub name: String,
    pub description: String,
    pub width: Option<u32>,
    pub height: Option<u32>,
}

/// A preset as plain values: name, description, width and height.
pub type PresetView = (Seq<char>, Seq<char>, Option<u32>, Option<u32>);

impl Preset {
    pub open spec fn view_tuple(&self) -> PresetView {
        (self.name@, self.description@, self.width, self.height)
    }
}

/// The built-in presets, in the order they are listed. The frame sizes of
/// `tiktok`, `reels` and `youtube` are those their descriptions give;
/// `youtube-short` is described only as vertical, and is taken to be
/// 1080x1920 like the other vertical presets.
pub open spec fn preset_table() -> Seq<PresetView> {
    seq![
        ("tiktok"@, "1080x1920 vertical MP4, h264/aac, creator captions in mind."@, Some(1080u32), Some(1920u32)),
        ("reels"@, "1080x1920 vertical MP4 for Instagram Reels."@, Some(1080u32), Some(1920u32)),
        ("youtube"@, "1920x1080 h264/aac MP4 with quality-biased defaults."@, Some(1920u32), Some(1080u32)),
        ("youtube-short"@, "vertical YouTube Shorts export."@, Some(1080u32), Some(1920u32)),
        ("podcast"@, "spoken-word MP3 defaults."@, None, None),
        ("lecture"@, "smaller readable screen or lecture capture."@, None, None),
        ("discord"@, "aggressive compression for chat sharing."@, None, None),
        ("web"@, "compact web-friendly media."@, None, None),
        ("archive"@, "conservative copy/remux preference."@, None, None),
    ]
}

fn preset(name: &str, description: &str, width: Option<u32>, height: Option<u32>) -> (r: Preset)
    ensures
        r.view_tuple() == (name@, description@, width, height),
{
    Preset { name: text(name), description: text(description), width, height }
}

/// The built-in presets: tiktok, reels, youtube, youtube-short, podcast,
/// lecture, discord, web and archive.
pub fn builtins() -> (r: Vec<Preset>)
    ensures
        r@.len() == preset_table().len(),
        forall|i: int| 0 <= i < r@.len() ==> (#[trigger] r@[i]).view_tuple() == preset_table()[i],
{
    let mut v: Vec<Preset> = Vec::new();
    v.push(preset("tiktok", "1080x1920 vertical MP4, h264/aac, creator captions in mind.", Some(1080), Some(1920)));
    v.push(preset("reels", "1080x1920 vertical MP4 for Instagram Reels.", Some(1080), Some(1920)));
    v.push(preset("youtube", "1920x1080 h264/aac MP4 with quality-biased defaults.", Some(1920), Some(1080)));
    v.push(preset("youtube-short", "vertical YouTube Shorts export.", Some(1080), Some(1920)));
    v.push(preset("podcast", "spoken-word MP3 defaults.", None, None));
    v.push(preset("lecture", "smaller readable screen or lecture capture.", None, None));
    v.push(preset("discord", "aggressive compression for chat sharing.", None, None));
    v.push(preset("web", "compact web-friendly media.", None, None));
    v.push(preset("archive", "conservative copy/remux preference.", None, None));
    v
}

/// The built-in preset of the given name, where there is one.
pub fn find(name: &str) -> (r: Option<Preset>)
    ensures
        r matches Some(p) ==> exists|i: int|
            0 <= i < preset_table().len() && (#[trigger] preset_table()[i]).0 == name@
                && p.view_tuple() == preset_table()[i],
        r is None ==> forall|i: int|
            0 <= i < preset_table().len() ==> (#[trigger] preset_table()[i]).0 != name@,
{
    let all = builtins();
    let cs = chars_of(name);
    let mut i: usize = 0;
    while i < all.len()
        invariant
            i <= all.len(),
            cs@ == name@,
            all@.len() == preset_table().len(),
            forall|j: int| 0 <= j < all@.len() ==> (#[trigger] all@[j]).view_tuple() == preset_table()[j],
            forall|j: int| 0 <= j < i ==> (#[trigger] preset_table()[j]).0 != name@,
        decreases all.len() - i,
    {
        assert(all@[i as int].view_tuple() == preset_table()[i as int]);
        if chars_eq_str(&cs, all[i].name.as_str()) {
            let p = Preset {
                name: all[i].name.clone(),
                description: all[i].description.clone(),
                width: all[i].width,
                height: all[i].height,
            };
            assert(preset_table()[i as int].0 == name@);
            return Some(p);
        }
        i += 1;
    }
    None
}

/// No two built-in presets share a name, so a name finds at most one.
pub proof fn lemma_preset_names_unique()
    ensures
        forall|i: int, j: int|
            0 <= i < preset_table().len() && 0 <= j < preset_table().len() && i != j ==> (
            #[trigger] preset_table()[i]).0 != (#[trigger] preset_table()[j]).0,
{
    reveal_strlit("tiktok");
    reveal_strlit("reels");
    reveal_strlit("youtube");
    reveal_strlit("youtube-short");
    reveal_strlit("podcast");
    reveal_strlit("lecture");
    reveal_strlit("discord");
    reveal_strlit("web");
    reveal_strlit("archive");
    let t = preset_table();
    assert(t.len() == 9);
    assert forall|i: int, j: int|
        0 <= i < t.len() && 0 <= j < t.len() && i != j implies (#[trigger] t[i]).0 != (
        #[trigger] t[j]).0 by {
        let a = t[i].0;
        let b = t[j].0;
        if a == b {
            assert(a.len() == b.len());
            assert(a[0] == b[0]);
        }
    }
}

/// A preset's line in the list: its name padded to fourteen characters, a
/// space, and its description.
pub open spec fn list_line_spec(name: Seq<char>, description: Seq<char>) -> Seq<char> {
    let pad = if name.len() < 14 {
        Seq::new((14 - name.len()) as nat, |i: int| ' ')
    } else {
        Seq::<char>::empty()
    };
    name + pad + seq![' '] + description
}

/// The line that lists a preset.
pub fn list_line(p: &Preset) -> (r: String)
    ensures
        r@ == list_line_spec(p.name@, p.description@),
{
    let mut r = String::new();
    push_str(&mut r, p.name.as_str());
    let n = chars_of(p.name.as_str()).len();
    let mut k = n;
    while k < 14
        invariant
            n <= k <= 14 || (n >= 14 && k == n),
            n == p.name@.len(),
            r@ == p.name@ + Seq::new((k - n) as nat, |i: int| ' '),
        decreases 14 - k,
    {
        crate::text::push_char(&mut r, ' ');
        k += 1;
        assert(r@ =~= p.name@ + Seq::new((k - n) as nat, |i: int| ' '));
    }
    crate::text::push_char(&mut r, ' ');
    push_str(&mut r, p.description.as_str());
    proof {
        let pad = if n < 14 {
            Seq::new((14 - n) as nat, |i: int| ' ')
        } else {
            Seq::<char>::empty()
        };
        assert(Seq::new((k - n) as nat, |i: int| ' ') =~= pad);
    }
    assert(r@ =~= list_line_spec(p.name@, p.description@));
    r
}

/// The template `preset create` prints for a new preset called `name`.
pub open spec fn preset_template_spec(name: Seq<char>) -> Seq<char> {
    "Preset `"@ + name + "` template:\n{\n  \"name\": \""@ + name
        + "\",\n  \"container\": \"mp4\",\n  \"video_codec\": \"libx264\",\n  \"audio_codec\": \"aac\"\n}"@
}

/// The JSON template for a new preset called `name`.
pub fn preset_template(name: &str) -> (r: String)
    ensures
        r@ == preset_template_spec(name@),
{
    let mut r = text("Preset `");
    push_str(&mut r, name);
    push_str(&mut r, "` template:\n{\n  \"name\": \"");
    push_str(&mut r, name);
    push_str(
        &mut r,
        "\",\n  \"container\": \"mp4\",\n  \"video_codec\": \"libx264\",\n  \"audio_codec\": \"aac\"\n}",
    );
    r
}

} // verus!
