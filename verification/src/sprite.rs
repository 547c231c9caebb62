//! Creatures: a name, a set of named poses of ASCII art, and optional tints.

use vstd::prelude::*;
use crate::config::Config;
use crate::text::{chars_of, str_eq};
use crate::theme::Color;

verus! {

/// One pose of a creature: its art and, optionally, the tint for that mood.
#[derive(Debug)]
pub struct Pose {
    pub art: String,
    pub color: Option<Color>,
}

impl Clone for Pose {
    fn clone(&self) -> (r: Self)
        ensures
            r == *self,
    {
        Pose { art: self.art.clone(), color: self.color }
    }
}

/// A creature: its name, the pose to fall back on, its poses by name, and
/// optionally the tint of the whole sprite.
#[derive(Debug)]
pub struct Sprite {
    pub name: String,
    pub default_pose: String,
    pub poses: Vec<(String, Pose)>,
    pub color: Option<Color>,
}

impl Sprite {
    /// No two poses share a name, as in the table of poses a sprite file
    /// holds.
    pub open spec fn names_distinct(&self) -> bool {
        forall|i: int, j: int|
            0 <= i < j < self.poses@.len() ==> #[trigger] self.poses@[i].0@ != #[trigger] self.poses@[j].0@
    }
}

/// The pose a sprite falls back on when its file names none.
pub fn default_default_pose() -> (r: String)
    ensures
        r@ == "idle"@,
{
    String::from_str("idle")
}

/// The art shown when a creature has no usable pose.
pub open spec fn fallback_art_text() -> Seq<char> {
    "    .---.\n   /     \\\n *( o   o )*\n   \\  _  /\n    '---'\n    /   \\\n   /__|__\\\n    |   |\n"@
}

/// A plain creature, for when no sprite can be had.
pub fn fallback_art() -> (p: Pose)
    ensures
        p.art@ == fallback_art_text(),
        p.color is None,
{
    Pose {
        art: String::from_str(
            "    .---.\n   /     \\\n *( o   o )*\n   \\  _  /\n    '---'\n    /   \\\n   /__|__\\\n    |   |\n",
        ),
        color: None,
    }
}

/// The tint of a pose: its own colour if it has one, else the sprite's.
pub open spec fn tint(sprite: Sprite, art: Pose) -> Option<Color> {
    match art.color {
        Some(c) => Some(c),
        None => sprite.color,
    }
}

/// The colour in which a pose of a sprite is painted, if any.
pub fn pose_color(sprite: &Sprite, art: &Pose) -> (r: Option<Color>)
    ensures
        r == tint(*sprite, *art),
{
    match art.color {
        Some(c) => Some(c),
        None => sprite.color,
    }
}

/// The first pose in `poses` named `name`.
pub open spec fn first_pose(poses: Seq<(String, Pose)>, name: Seq<char>) -> Option<Pose>
    decreases poses.len(),
{
    if poses.len() == 0 {
        None
    } else if poses[0].0@ == name {
        Some(poses[0].1)
    } else {
        first_pose(poses.drop_first(), name)
    }
}

/// Where pose names are distinct, the pose found by name is the one entry
/// with that name.
pub proof fn lemma_first_pose_unique(poses: Seq<(String, Pose)>, name: Seq<char>, i: int)
    requires
        0 <= i < poses.len(),
        poses[i].0@ == name,
        forall|a: int, b: int| 0 <= a < b < poses.len() ==> #[trigger] poses[a].0@ != #[trigger] poses[b].0@,
    ensures
        first_pose(poses, name) == Some(poses[i].1),
    decreases poses.len(),
{
    if i > 0 {
        assert(poses[0].0@ != poses[i].0@);
        let rest = poses.drop_first();
        assert forall|a: int, b: int| 0 <= a < b < rest.len() implies #[trigger] rest[a].0@ != #[trigger] rest[b].0@ by {
            assert(rest[a] == poses[a + 1]);
            assert(rest[b] == poses[b + 1]);
        }
        assert(rest[i - 1] == poses[i]);
        lemma_first_pose_unique(rest, name, i - 1);
    }
}

/// The first pose in `poses` named `name` is one of its entries with that
/// name, and there is none exactly when no entry has that name.
proof fn lemma_first_pose_found(poses: Seq<(String, Pose)>, name: Seq<char>)
    ensures
        first_pose(poses, name) is None <==> forall|i: int| 0 <= i < poses.len() ==> #[trigger] poses[i].0@ != name,
    decreases poses.len(),
{
    if poses.len() > 0 {
        let rest = poses.drop_first();
        lemma_first_pose_found(rest, name);
        if poses[0].0@ != name {
            assert forall|i: int| 0 <= i < poses.len() && (forall|k: int| 0 <= k < rest.len() ==> #[trigger] rest[k].0@ != name)
                implies #[trigger] poses[i].0@ != name by {
                if i > 0 {
                    assert(rest[i - 1] == poses[i]);
                }
            }
            assert((forall|i: int| 0 <= i < poses.len() ==> #[trigger] poses[i].0@ != name) ==> (forall|k: int|
                0 <= k < rest.len() ==> #[trigger] rest[k].0@ != name)) by {
                assert forall|k: int| 0 <= k < rest.len() && (forall|i: int| 0 <= i < poses.len() ==> #[trigger] poses[i].0@ != name)
                    implies #[trigger] rest[k].0@ != name by {
                    assert(rest[k] == poses[k + 1]);
                }
            }
        }
    }
}

/// The pose of `sprite` named `name`, if it has one: the first entry with
/// that name, which is the only one where names are distinct.
pub fn find_pose<'a>(sprite: &'a Sprite, name: &str) -> (r: Option<&'a Pose>)
    ensures
        match r {
            Some(p) => first_pose(sprite.poses@, name@) == Some(*p),
            None => first_pose(sprite.poses@, name@) is None,
        },
        r is None <==> forall|i: int| 0 <= i < sprite.poses@.len() ==> #[trigger] sprite.poses@[i].0@ != name@,
        sprite.names_distinct() ==> forall|i: int|
            0 <= i < sprite.poses@.len() && #[trigger] sprite.poses@[i].0@ == name@ ==> r == Some(&sprite.poses@[i].1),
{
    let mut i: usize = 0;
    assert(sprite.poses@.skip(0) =~= sprite.poses@);
    while i < sprite.poses.len()
        invariant
            i <= sprite.poses@.len(),
            first_pose(sprite.poses@, name@) == first_pose(sprite.poses@.skip(i as int), name@),
        decreases sprite.poses.len() - i,
    {
        let ghost rest = sprite.poses@.skip(i as int);
        assert(rest[0] == sprite.poses@[i as int]);
        assert(rest.drop_first() =~= sprite.poses@.skip(i + 1));
        if str_eq(sprite.poses[i].0.as_str(), name) {
            proof {
                lemma_first_pose_found(sprite.poses@, name@);
                if sprite.names_distinct() {
                    assert forall|k: int| 0 <= k < sprite.poses@.len() && #[trigger] sprite.poses@[k].0@ == name@
                        implies Some(&sprite.poses[i as int].1) == Some(&sprite.poses@[k].1) by {
                        lemma_first_pose_unique(sprite.poses@, name@, k);
                    }
                }
            }
            return Some(&sprite.poses[i].1);
        }
        i = i + 1;
    }
    proof {
        lemma_first_pose_found(sprite.poses@, name@);
    }
    None
}

/// A new string holding a lone `?`.
fn question_mark() -> (s: String)
    ensures
        s@ == "?"@,
{
    String::from_str("?")
}

/// The art shown for pose `name` of `sprite`: that pose, else the sprite's
/// default pose, else a lone `?`.
pub fn pick_art(sprite: &Sprite, name: &str) -> (p: Pose)
    ensures
        match first_pose(sprite.poses@, name@) {
            Some(q) => p == q,
            None => match first_pose(sprite.poses@, sprite.default_pose@) {
                Some(q) => p == q,
                None => p.art@ == "?"@ && p.color is None,
            },
        },
{
    match find_pose(sprite, name) {
        Some(p) => p.clone(),
        None => match find_pose(sprite, sprite.default_pose.as_str()) {
            Some(p) => p.clone(),
            None => Pose { art: question_mark(), color: None },
        },
    }
}

/// The creature asked for: the one named on the command line, else the
/// configured one.
pub fn creature_choice(cfg: &Config, cli_override: Option<&str>) -> (r: String)
    ensures
        r@ == match cli_override {
            Some(c) => c@,
            None => cfg.creature@,
        },
{
    match cli_override {
        Some(c) => String::from_str(c),
        None => cfg.creature.clone(),
    }
}

/// Whether a creature's name is rather a path to a sprite file: it holds a
/// `/` or ends with `.toml`.
pub open spec fn path_like(pick: Seq<char>) -> bool {
    pick.contains('/') || (pick.len() >= 5 && pick.subrange(pick.len() - 5, pick.len() as int) == ".toml"@)
}

/// Whether the creature's name is a path to a sprite file.
pub fn is_path_like(pick: &str) -> (r: bool)
    ensures
        r == path_like(pick@),
{
    let v = chars_of(pick);
    let mut i: usize = 0;
    while i < v.len()
        invariant
            v@ == pick@,
            i <= v@.len(),
            forall|k: int| 0 <= k < i ==> v@[k] != '/',
        decreases v.len() - i,
    {
        if v[i] == '/' {
            assert(pick@[i as int] == '/');
            return true;
        }
        i = i + 1;
    }
    if v.len() < 5 {
        return false;
    }
    let n = v.len();
    let suffix = crate::text::string_of(&v, n - 5, n);
    str_eq(suffix.as_str(), ".toml")
}

/// The creatures built into the program.
#[derive(Debug, Clone, Copy, PartialEq, Eq, Structural)]
pub enum BuiltinCreature {
    Axolotl,
    Fox,
}

/// The built-in creature a name stands for: `axolotl` or `fox`.
pub open spec fn builtin_named(pick: Seq<char>) -> Option<BuiltinCreature> {
    if pick == "axolotl"@ {
        Some(BuiltinCreature::Axolotl)
    } else if pick == "fox"@ {
        Some(BuiltinCreature::Fox)
    } else {
        None
    }
}

/// The built-in creature named `pick`, if any.
pub fn builtin_creature(pick: &str) -> (r: Option<BuiltinCreature>)
    ensures
        r == builtin_named(pick@),
{
    if str_eq(pick, "axolotl") {
        Some(BuiltinCreature::Axolotl)
    } else if str_eq(pick, "fox") {
        Some(BuiltinCreature::Fox)
    } else {
        None
    }
}

/// Whether the name is that of a creature built into the program.
pub fn is_builtin_creature(pick: &str) -> (r: bool)
    ensures
        r == (pick@ == "axolotl"@ || pick@ == "fox"@),
{
    builtin_creature(pick).is_some()
}

} // verus!
