//! The item renderer's bookkeeping: the texture key of a material, the
//! tint of its faces, where its textures live, and what it has baked.

use crate::text::{ascii_lower, chars_of, push_char, push_chars, push_str, str_equals, to_ascii_lowercase};
use vstd::prelude::*;

verus! {

/// Whether `c` has Unicode's Uppercase property, as `char::is_uppercase`
/// says.
pub uninterp spec fn spec_is_uppercase(c: char) -> bool;

/// `char::is_uppercase`: whether `c` has Unicode's Uppercase property (named
/// `spec_is_uppercase`); among ASCII characters exactly `A` to `Z` have it.
/// Which other characters have it is not stated.
#[verifier::external_body]
fn char_is_uppercase(c: char) -> (r: bool)
    ensures
        r == spec_is_uppercase(c),
        (c as u32) < 128 ==> (r <==> 'A' <= c <= 'Z'),
{
    c.is_uppercase()
}

/// What the character at position `i` of a material's name becomes in its
/// key: an upper-case letter past the start gets an underscore before it,
/// and ASCII letters become lower-case.
pub open spec fn key_piece(c: char, i: int) -> Seq<char> {
    if spec_is_uppercase(c) && i != 0 {
        seq!['_', ascii_lower(c)]
    } else {
        seq![ascii_lower(c)]
    }
}

/// The key of a material named `name` (its name in CamelCase): snake_case.
pub open spec fn spec_material_key(name: Seq<char>) -> Seq<char>
    decreases name.len(),
{
    if name.len() == 0 {
        Seq::empty()
    } else {
        spec_material_key(name.drop_last()) + key_piece(name.last(), name.len() - 1)
    }
}

/// The texture key of a material from its name: `GrassBlock` becomes
/// `grass_block`.
pub fn material_to_key(name: &str) -> (r: String)
    ensures
        r@ == spec_material_key(name@),
{
    let cs = chars_of(name);
    let mut out = String::new();
    let mut i: usize = 0;
    assert(name@.subrange(0, 0) =~= Seq::<char>::empty());
    while i < cs.len()
        invariant
            cs@ == name@,
            i <= cs@.len(),
            out@ == spec_material_key(name@.subrange(0, i as int)),
        decreases cs@.len() - i,
    {
        let c = cs[i];
        if char_is_uppercase(c) && i != 0 {
            push_char(&mut out, '_');
            push_char(&mut out, to_ascii_lowercase(c));
        } else {
            push_char(&mut out, to_ascii_lowercase(c));
        }
        let ghost next = name@.subrange(0, i + 1);
        assert(next.drop_last() =~= name@.subrange(0, i as int));
        i = i + 1;
        assert(out@ =~= spec_material_key(next));
    }
    assert(name@.subrange(0, cs@.len() as int) =~= name@);
    out
}

/// The tint the renderer gives the faces of the material named `name`:
/// grass-coloured plants, leaf colours and water; none for the rest.
pub open spec fn spec_tint(name: Seq<char>) -> Option<(u8, u8, u8)> {
    if name == "Grass"@ || name == "GrassBlock"@ || name == "Fern"@ || name == "TallGrass"@
        || name == "LargeFern"@ || name == "PottedFern"@ || name == "SugarCane"@ {
        Some((127, 178, 56))
    } else if name == "OakLeaves"@ || name == "JungleLeaves"@ || name == "AcaciaLeaves"@ || name
        == "DarkOakLeaves"@ || name == "Vine"@ {
        Some((106, 173, 75))
    } else if name == "SpruceLeaves"@ {
        Some((97, 153, 97))
    } else if name == "BirchLeaves"@ {
        Some((128, 167, 85))
    } else if name == "LilyPad"@ {
        Some((32, 128, 48))
    } else if name == "Water"@ {
        Some((63, 118, 228))
    } else {
        None
    }
}

/// The tint for the faces of the material named `name`.
pub fn tint_for_material(name: &str) -> (r: Option<(u8, u8, u8)>)
    ensures
        r == spec_tint(name@),
{
    if str_equals(name, "Grass") || str_equals(name, "GrassBlock") || str_equals(name, "Fern")
        || str_equals(name, "TallGrass") || str_equals(name, "LargeFern") || str_equals(
        name,
        "PottedFern",
    ) || str_equals(name, "SugarCane") {
        Some((127, 178, 56))
    } else if str_equals(name, "OakLeaves") || str_equals(name, "JungleLeaves") || str_equals(
        name,
        "AcaciaLeaves",
    ) || str_equals(name, "DarkOakLeaves") || str_equals(name, "Vine") {
        Some((106, 173, 75))
    } else if str_equals(name, "SpruceLeaves") {
        Some((97, 153, 97))
    } else if str_equals(name, "BirchLeaves") {
        Some((128, 167, 85))
    } else if str_equals(name, "LilyPad") {
        Some((32, 128, 48))
    } else if str_equals(name, "Water") {
        Some((63, 118, 228))
    } else {
        None
    }
}

/// The first position of `:` in `s`, or `-1`.
pub open spec fn first_colon(s: Seq<char>, from: int) -> int
    decreases s.len() - from,
{
    if from < 0 || from >= s.len() {
        -1
    } else if s[from] == ':' {
        from
    } else {
        first_colon(s, from + 1)
    }
}

/// Where the texture named `plugin:path` lives: in `plugin`, at
/// `textures/<path>.png`; nowhere when the name has no colon.
pub open spec fn spec_texture_location(name: Seq<char>) -> Option<(Seq<char>, Seq<char>)> {
    let k = first_colon(name, 0);
    if k < 0 {
        None
    } else {
        Some(
            (
                name.subrange(0, k),
                "textures/"@ + name.subrange(k + 1, name.len() as int) + ".png"@,
            ),
        )
    }
}

/// Where the texture named `plugin:path` lives: the plugin and the resource
/// path `textures/<path>.png`.
pub fn texture_location(name: &str) -> (r: Option<(String, String)>)
    ensures
        match r {
            Some((plugin, path)) => spec_texture_location(name@) == Some((plugin@, path@)),
            None => spec_texture_location(name@) is None,
        },
{
    let cs = chars_of(name);
    let mut k: usize = 0;
    while k < cs.len() && cs[k] != ':'
        invariant
            cs@ == name@,
            k <= cs@.len(),
            first_colon(name@, 0) == first_colon(name@, k as int),
        decreases cs@.len() - k,
    {
        k = k + 1;
    }
    if k >= cs.len() {
        return None;
    }
    let (before, after) = cs.as_slice().split_at(k);
    let mut plugin = String::new();
    push_chars(&mut plugin, before);
    let mut path = String::new();
    push_str(&mut path, "textures/");
    push_chars(&mut path, after.split_at(1).1);
    push_str(&mut path, ".png");
    assert(plugin@ =~= name@.subrange(0, k as int));
    assert(path@ =~= "textures/"@ + name@.subrange(k + 1, name@.len() as int) + ".png"@);
    Some((plugin, path))
}

/// One colour channel of a texel under a tint: their product scaled back
/// to a byte.
pub open spec fn tinted(p: u8, t: u8) -> u8 {
    (p as int * t as int / 255) as u8
}

/// The colour of a texel under an optional tint.
pub fn apply_tint(pixel: (u8, u8, u8), tint: Option<(u8, u8, u8)>) -> (r: (u8, u8, u8))
    ensures
        r == match tint {
            Some((tr, tg, tb)) => (tinted(pixel.0, tr), tinted(pixel.1, tg), tinted(pixel.2, tb)),
            None => pixel,
        },
{
    match tint {
        Some((tr, tg, tb)) => {
            assert(pixel.0 as int * tr as int <= 255 * 255) by (nonlinear_arith)
                requires pixel.0 <= 255, tr <= 255;
            assert(pixel.1 as int * tg as int <= 255 * 255) by (nonlinear_arith)
                requires pixel.1 <= 255, tg <= 255;
            assert(pixel.2 as int * tb as int <= 255 * 255) by (nonlinear_arith)
                requires pixel.2 <= 255, tb <= 255;
            (
                (pixel.0 as u32 * tr as u32 / 255) as u8,
                (pixel.1 as u32 * tg as u32 / 255) as u8,
                (pixel.2 as u32 * tb as u32 / 255) as u8,
            )
        },
        None => pixel,
    }
}

/// Whether every texel of a baked image is fully transparent (no image
/// counts as transparent), so that the bake is discarded.
#[verifier::loop_isolation(false)]
pub fn fully_transparent(alphas: Option<&[u8]>) -> (r: bool)
    ensures
        r == match alphas {
            Some(a) => forall|i: int| 0 <= i < a@.len() ==> a@[i] == 0,
            None => true,
        },
{
    match alphas {
        None => true,
        Some(a) => {
            let mut i: usize = 0;
            while i < a.len()
                invariant
                    i <= a@.len(),
                    forall|k: int| 0 <= k < i ==> a@[k] == 0,
                decreases a@.len() - i,
            {
                if a[i] != 0 {
                    return false;
                }
                i = i + 1;
            }
            true
        },
    }
}

/// The names a baked item texture is stored under: its dynamic texture
/// name `item_3d/<key>`, and the full name `rustcraft-dynamic:item_3d/<key>`
/// it is looked up by.
pub fn baked_texture_names(key: &str) -> (r: (String, String))
    ensures
        r.0@ == "item_3d/"@ + key@,
        r.1@ == "rustcraft-dynamic:"@ + "item_3d/"@ + key@,
{
    let mut dyn_name = String::new();
    push_str(&mut dyn_name, "item_3d/");
    push_str(&mut dyn_name, key);
    let mut full = String::new();
    push_str(&mut full, "rustcraft-dynamic:");
    push_str(&mut full, dyn_name.as_str());
    assert(full@ =~= "rustcraft-dynamic:"@ + "item_3d/"@ + key@);
    (dyn_name, full)
}

/// What the renderer remembers of a material key.
#[derive(Debug, PartialEq, Eq)]
pub enum BakeLookup {
    /// It was baked into the texture of this name.
    Baked(String),
    /// Baking it failed before.
    NotBakeable,
    /// It has not been tried.
    Unknown,
}

/// The first texture name stored for `key` in `cache`.
pub open spec fn cache_lookup(cache: Seq<(String, String)>, key: Seq<char>) -> Option<Seq<char>>
    decreases cache.len(),
{
    if cache.len() == 0 {
        None
    } else if cache[0].0@ == key {
        Some(cache[0].1@)
    } else {
        cache_lookup(cache.subrange(1, cache.len() as int), key)
    }
}

/// The model of a lookup's answer, as `ItemRenderer::lookup` gives it.
pub open spec fn lookup_model(r: &BakeLookup) -> Option<Option<Seq<char>>> {
    match r {
        BakeLookup::Baked(n) => Some(Some(n@)),
        BakeLookup::NotBakeable => Some(None),
        BakeLookup::Unknown => None,
    }
}

/// The text of an optional string.
pub open spec fn opt_string_view(s: Option<String>) -> Option<Seq<char>> {
    match s {
        Some(t) => Some(t@),
        None => None,
    }
}

/// The item renderer's memory of which material keys it has baked into
/// textures, and which it could not bake.
pub struct ItemRenderer {
    cache: Vec<(String, String)>,
    non_bakeable: Vec<String>,
}

impl ItemRenderer {
    /// The texture baked for `key`, if any.
    pub closed spec fn baked(&self, key: Seq<char>) -> Option<Seq<char>> {
        cache_lookup(self.cache@, key)
    }

    /// Whether baking `key` failed before.
    pub closed spec fn unbakeable(&self, key: Seq<char>) -> bool {
        exists|i: int| 0 <= i < self.non_bakeable@.len() && #[trigger] self.non_bakeable@[i]@ == key
    }

    /// What is remembered of `key`: `Some(Some(texture))` when it was baked,
    /// `Some(None)` when baking it failed, `None` when it was never tried.
    pub open spec fn lookup(&self, key: Seq<char>) -> Option<Option<Seq<char>>> {
        match self.baked(key) {
            Some(name) => Some(Some(name)),
            None => if self.unbakeable(key) {
                Some(None)
            } else {
                None
            },
        }
    }

    /// `after` is `before` having recorded that baking `key` gave `result`.
    pub open spec fn recorded(
        before: &ItemRenderer,
        after: &ItemRenderer,
        key: Seq<char>,
        result: Option<Seq<char>>,
    ) -> bool {
        &&& forall|k: Seq<char>|
            #[trigger] after.baked(k) == if k == key && result is Some {
                result
            } else {
                before.baked(k)
            }
        &&& forall|k: Seq<char>|
            #[trigger] after.unbakeable(k) == (before.unbakeable(k) || (k == key
                && result is None))
    }

    /// A renderer that remembers nothing.
    pub fn new() -> (r: ItemRenderer)
        ensures
            forall|k: Seq<char>| r.baked(k) is None && !r.unbakeable(k),
    {
        ItemRenderer { cache: Vec::new(), non_bakeable: Vec::new() }
    }

    /// What is remembered of `key`: its texture when it was baked, else
    /// whether baking it failed; `Unknown` means it is to be baked now.
    #[verifier::loop_isolation(false)]
    pub fn get_or_bake(&self, key: &str) -> (r: BakeLookup)
        ensures
            lookup_model(&r) == self.lookup(key@),
    {
        let k = key.to_owned();
        let mut i: usize = 0;
        assert(self.cache@.subrange(0, self.cache@.len() as int) =~= self.cache@);
        while i < self.cache.len()
            invariant
                i <= self.cache@.len(),
                cache_lookup(self.cache@, key@) == cache_lookup(
                    self.cache@.subrange(i as int, self.cache@.len() as int),
                    key@,
                ),
            decreases self.cache@.len() - i,
        {
            let ghost rest = self.cache@.subrange(i as int, self.cache@.len() as int);
            assert(rest[0] == self.cache@[i as int]);
            if self.cache[i].0 == k {
                return BakeLookup::Baked(self.cache[i].1.clone());
            }
            assert(rest.subrange(1, rest.len() as int) =~= self.cache@.subrange(
                i + 1,
                self.cache@.len() as int,
            ));
            i = i + 1;
        }
        let mut j: usize = 0;
        while j < self.non_bakeable.len()
            invariant
                j <= self.non_bakeable@.len(),
                cache_lookup(self.cache@, key@) is None,
                forall|m: int| 0 <= m < j ==> #[trigger] self.non_bakeable@[m]@ != key@,
            decreases self.non_bakeable@.len() - j,
        {
            if self.non_bakeable[j] == k {
                assert(self.non_bakeable@[j as int]@ == key@);
                return BakeLookup::NotBakeable;
            }
            j = j + 1;
        }
        BakeLookup::Unknown
    }

    /// Remembers how baking `key` went: the texture name it was baked into,
    /// or that it could not be baked. Returns that texture name.
    pub fn record_bake(&mut self, key: &str, result: Option<String>) -> (r: Option<String>)
        ensures
            r == result,
            ItemRenderer::recorded(old(self), final(self), key@, opt_string_view(result)),
    {
        match result {
            Some(name) => {
                let ghost old_cache = self.cache@;
                let entry = (key.to_owned(), name.clone());
                self.cache.insert(0, entry);
                proof {
                    assert forall|k: Seq<char>| #[trigger] cache_lookup(self.cache@, k) == if k
                        == key@ {
                        Some(name@)
                    } else {
                        cache_lookup(old_cache, k)
                    } by {
                        assert(self.cache@.subrange(1, self.cache@.len() as int) =~= old_cache);
                    }
                }
                Some(name)
            },
            None => {
                let ghost old_nb = self.non_bakeable@;
                self.non_bakeable.push(key.to_owned());
                proof {
                    assert forall|k: Seq<char>| #[trigger] self.unbakeable(k) == (old(
                        self,
                    ).unbakeable(k) || k == key@) by {
                        if old(self).unbakeable(k) {
                            let i = choose|i: int|
                                0 <= i < old_nb.len() && #[trigger] old_nb[i]@ == k;
                            assert(self.non_bakeable@[i] == old_nb[i]);
                        }
                        if k == key@ {
                            assert(self.non_bakeable@[old_nb.len() as int]@ == k);
                        }
                    }
                }
                None
            },
        }
    }

    /// Forgets everything baked and every failure.
    pub fn reset(&mut self)
        ensures
            forall|k: Seq<char>| final(self).baked(k) is None && !final(self).unbakeable(k),
    {
        self.cache.clear();
        self.non_bakeable.clear();
    }
}

/// After baking a key was recorded, looking it up gives the texture when
/// baking succeeded; when it failed, an earlier texture still wins, and
/// otherwise the failure is remembered.
pub proof fn law_lookup_after_record(
    before: &ItemRenderer,
    after: &ItemRenderer,
    key: Seq<char>,
    result: Option<Seq<char>>,
)
    requires
        ItemRenderer::recorded(before, after, key, result),
    ensures
        after.lookup(key) == match result {
            Some(n) => Some(Some(n)),
            None => match before.baked(key) {
                Some(n) => Some(Some(n)),
                None => Some(None::<Seq<char>>),
            },
        },
{
    assert(after.baked(key) == if result is Some {
        result
    } else {
        before.baked(key)
    });
    assert(after.unbakeable(key) == (before.unbakeable(key) || result is None));
}

/// Materials of one colour family share one tint: grass and ferns (and
/// sugar cane) the grass colour (127, 178, 56); oak, jungle, acacia and
/// dark oak leaves and vines the foliage colour (106, 173, 75); spruce
/// leaves (97, 153, 97); birch leaves (128, 167, 85); lily pads
/// (32, 128, 48); water (63, 118, 228).
pub proof fn law_tint_families(name: Seq<char>)
    ensures
        name == "Grass"@ || name == "GrassBlock"@ || name == "Fern"@ || name == "TallGrass"@
            || name == "LargeFern"@ || name == "PottedFern"@ || name == "SugarCane"@ ==> spec_tint(
            name,
        ) == Some((127u8, 178u8, 56u8)),
        name == "OakLeaves"@ || name == "JungleLeaves"@ || name == "AcaciaLeaves"@ || name
            == "DarkOakLeaves"@ || name == "Vine"@ ==> spec_tint(name) == Some((106u8, 173u8, 75u8)),
        name == "SpruceLeaves"@ ==> spec_tint(name) == Some((97u8, 153u8, 97u8)),
        name == "BirchLeaves"@ ==> spec_tint(name) == Some((128u8, 167u8, 85u8)),
        name == "LilyPad"@ ==> spec_tint(name) == Some((32u8, 128u8, 48u8)),
        name == "Water"@ ==> spec_tint(name) == Some((63u8, 118u8, 228u8)),
{
    reveal_strlit("Grass");
    reveal_strlit("GrassBlock");
    reveal_strlit("Fern");
    reveal_strlit("TallGrass");
    reveal_strlit("LargeFern");
    reveal_strlit("PottedFern");
    reveal_strlit("SugarCane");
    reveal_strlit("OakLeaves");
    reveal_strlit("JungleLeaves");
    reveal_strlit("AcaciaLeaves");
    reveal_strlit("DarkOakLeaves");
    reveal_strlit("Vine");
    reveal_strlit("SpruceLeaves");
    reveal_strlit("BirchLeaves");
    reveal_strlit("LilyPad");
    reveal_strlit("Water");
    // A name of one family differs from every name of the families before
    // it in its first letter or in its length.
    if name == "OakLeaves"@ || name == "JungleLeaves"@ || name == "AcaciaLeaves"@ || name
        == "DarkOakLeaves"@ || name == "Vine"@ {
        let earlier = seq![
            "Grass"@, "GrassBlock"@, "Fern"@, "TallGrass"@, "LargeFern"@, "PottedFern"@,
            "SugarCane"@,
        ];
        assert forall|i: int| 0 <= i < earlier.len() implies name != #[trigger] earlier[i] by {
            assert(name.len() != earlier[i].len() || name[0] != earlier[i][0]);
        }
        assert(name != earlier[0]);
        assert(name != earlier[1]);
        assert(name != earlier[2]);
        assert(name != earlier[3]);
        assert(name != earlier[4]);
        assert(name != earlier[5]);
        assert(name != earlier[6]);
    }
    if name == "SpruceLeaves"@ {
        let earlier = seq![
            "Grass"@, "GrassBlock"@, "Fern"@, "TallGrass"@, "LargeFern"@, "PottedFern"@,
            "SugarCane"@, "OakLeaves"@, "JungleLeaves"@, "AcaciaLeaves"@, "DarkOakLeaves"@,
            "Vine"@,
        ];
        assert forall|i: int| 0 <= i < earlier.len() implies name != #[trigger] earlier[i] by {
            assert(name.len() != earlier[i].len() || name[0] != earlier[i][0]);
        }
        assert(name != earlier[0]);
        assert(name != earlier[1]);
        assert(name != earlier[2]);
        assert(name != earlier[3]);
        assert(name != earlier[4]);
        assert(name != earlier[5]);
        assert(name != earlier[6]);
        assert(name != earlier[7]);
        assert(name != earlier[8]);
        assert(name != earlier[9]);
        assert(name != earlier[10]);
        assert(name != earlier[11]);
    }
    if name == "BirchLeaves"@ {
        let earlier = seq![
            "Grass"@, "GrassBlock"@, "Fern"@, "TallGrass"@, "LargeFern"@, "PottedFern"@,
            "SugarCane"@, "OakLeaves"@, "JungleLeaves"@, "AcaciaLeaves"@, "DarkOakLeaves"@,
            "Vine"@, "SpruceLeaves"@,
        ];
        assert forall|i: int| 0 <= i < earlier.len() implies name != #[trigger] earlier[i] by {
            assert(name.len() != earlier[i].len() || name[0] != earlier[i][0]);
        }
        assert(name != earlier[0]);
        assert(name != earlier[1]);
        assert(name != earlier[2]);
        assert(name != earlier[3]);
        assert(name != earlier[4]);
        assert(name != earlier[5]);
        assert(name != earlier[6]);
        assert(name != earlier[7]);
        assert(name != earlier[8]);
        assert(name != earlier[9]);
        assert(name != earlier[10]);
        assert(name != earlier[11]);
        assert(name != earlier[12]);
    }
    if name == "LilyPad"@ {
        let earlier = seq![
            "Grass"@, "GrassBlock"@, "Fern"@, "TallGrass"@, "LargeFern"@, "PottedFern"@,
            "SugarCane"@, "OakLeaves"@, "JungleLeaves"@, "AcaciaLeaves"@, "DarkOakLeaves"@,
            "Vine"@, "SpruceLeaves"@, "BirchLeaves"@,
        ];
        assert forall|i: int| 0 <= i < earlier.len() implies name != #[trigger] earlier[i] by {
            assert(name.len() != earlier[i].len() || name[0] != earlier[i][0]);
        }
        assert(name != earlier[0]);
        assert(name != earlier[1]);
        assert(name != earlier[2]);
        assert(name != earlier[3]);
        assert(name != earlier[4]);
        assert(name != earlier[5]);
        assert(name != earlier[6]);
        assert(name != earlier[7]);
        assert(name != earlier[8]);
        assert(name != earlier[9]);
        assert(name != earlier[10]);
        assert(name != earlier[11]);
        assert(name != earlier[12]);
        assert(name != earlier[13]);
    }
    if name == "Water"@ {
        let earlier = seq![
            "Grass"@, "GrassBlock"@, "Fern"@, "TallGrass"@, "LargeFern"@, "PottedFern"@,
            "SugarCane"@, "OakLeaves"@, "JungleLeaves"@, "AcaciaLeaves"@, "DarkOakLeaves"@,
            "Vine"@, "SpruceLeaves"@, "BirchLeaves"@, "LilyPad"@,
        ];
        assert forall|i: int| 0 <= i < earlier.len() implies name != #[trigger] earlier[i] by {
            assert(name.len() != earlier[i].len() || name[0] != earlier[i][0]);
        }
        assert(name != earlier[0]);
        assert(name != earlier[1]);
        assert(name != earlier[2]);
        assert(name != earlier[3]);
        assert(name != earlier[4]);
        assert(name != earlier[5]);
        assert(name != earlier[6]);
        assert(name != earlier[7]);
        assert(name != earlier[8]);
        assert(name != earlier[9]);
        assert(name != earlier[10]);
        assert(name != earlier[11]);
        assert(name != earlier[12]);
        assert(name != earlier[13]);
        assert(name != earlier[14]);
    }
}

} // verus!
