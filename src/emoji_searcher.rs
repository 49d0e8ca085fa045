use crate::search_result_entry::SearchResultEntry;
use crate::searcher::{Effect, Searcher};
use vstd::prelude::*;

verus! {

/// `n` occurs in `h` as a contiguous run.
pub open spec fn is_substring(n: Seq<char>, h: Seq<char>) -> bool {
    exists|i: int| 0 <= i <= h.len() - n.len() && #[trigger] h.subrange(i, i + n.len()) == n
}

/// The query of an emoji pattern: everything after its first character.
pub open spec fn emoji_query(p: Seq<char>) -> Seq<char> {
    if p.len() == 0 {
        p
    } else {
        p.drop_first()
    }
}

/// The (emoji, keywords) rows whose keywords contain `q`, in table order.
pub open spec fn emoji_hits(rows: Seq<(Seq<char>, Seq<char>)>, q: Seq<char>) -> Seq<(Seq<char>, Seq<char>)> {
    rows.filter(|row: (Seq<char>, Seq<char>)| is_substring(q, row.1))
}

/// The (value, label) text of each entry.
pub open spec fn entry_texts(r: Seq<SearchResultEntry>) -> Seq<(Seq<char>, Seq<char>)> {
    r.map_values(|e: SearchResultEntry| (e.value->0@, e.label@))
}

/// What an emoji search for `pattern` tagged `search_id` gives: no result
/// list for an empty query, otherwise one valid entry per row whose keywords
/// contain the query, labelled with the keywords and valued with the emoji.
pub open spec fn emoji_search_outcome(
    e: EmojiSearcher,
    pattern: Seq<char>,
    search_id: u32,
    r: Option<Vec<SearchResultEntry>>,
) -> bool {
    &&& r is None <==> emoji_query(pattern).len() == 0
    &&& r is Some ==> entry_texts(r->0@) == emoji_hits(e.rows(), emoji_query(pattern))
    &&& r is Some ==> forall|i: int|
        0 <= i < r->0.len() ==> (#[trigger] r->0[i]).valid && r->0[i].search_id == search_id
            && r->0[i].value is Some
}

/// Whether `needle` occurs in `hay`.
pub fn contains_text(hay: &str, needle: &str) -> (r: bool)
    ensures
        r == is_substring(needle@, hay@),
{
    let hl = hay.unicode_len();
    let nl = needle.unicode_len();
    if nl > hl {
        return false;
    }
    let n = String::from_str(needle);
    let mut i: usize = 0;
    loop
        invariant
            hl == hay@.len(),
            nl == needle@.len(),
            nl <= hl,
            n@ == needle@,
            i <= hl - nl,
            forall|k: int| 0 <= k < i ==> #[trigger] hay@.subrange(k, k + nl) != needle@,
        decreases hl - nl - i,
    {
        let sub = String::from_str(hay.substring_char(i, i + nl));
        if sub == n {
            return true;
        }
        if i == hl - nl {
            return false;
        }
        i += 1;
    }
}

/// The (emoji, keywords) views of the rows of `t`.
pub open spec fn table_rows(t: Seq<(String, String)>) -> Seq<(Seq<char>, Seq<char>)> {
    t.map_values(|row: (String, String)| (row.0@, row.1@))
}

/// The first rows of the emoji table; the following parts continue it.
pub open spec fn emoji_rows_a() -> Seq<(Seq<char>, Seq<char>)> {
    seq![
        ("\u{1F44D}"@, "+1, thumbs up"@),
        ("\u{1F44E}"@, "-1, thumbs down"@),
        ("\u{1F620}"@, "angry"@),
        ("\u{1F92C}"@, "angry_cursing"@),
        ("\u{1F627}"@, "anguished, anxious, scared"@),
        ("\u{1F630}"@, "anxious_face_with_sweat, sick"@),
        ("\u{1F632}"@, "astonished"@),
        ("\u{1F9B2}"@, "bald"@),
        ("\u{1F601}"@, "beaming_face_with_smiling_eyes, grin"@),
        ("\u{1F382}"@, "birthday_cake"@),
        ("\u{1F618}"@, "blowing_kiss"@),
        ("\u{1F60A}"@, "blush"@),
        ("\u{1F490}"@, "bouquet, flowers"@),
        ("\u{1F466}"@, "boy, child"@),
        ("\u{1F351}"@, "butt, ass"@),
        ("\u{1F919}"@, "call_me"@),
    ]
}

pub open spec fn emoji_rows_b() -> Seq<(Seq<char>, Seq<char>)> {
    seq![
        ("\u{1F90C}"@, "cazzuvo"@),
        ("\u{1F9D2}"@, "child"@),
        ("\u{1F942}"@, "clinking_glasses, party, drink"@),
        ("\u{1F921}"@, "clown"@),
        ("\u{1F378}"@, "cocktail_glass, drink"@),
        ("\u{1F928}"@, "colbert, face with raised eyebrow"@),
        ("\u{1F976}"@, "cold_face, freezing"@),
        ("\u{1F38A}"@, "confetti_ball, party"@),
        ("\u{1F615}"@, "confused, puzzled, baffled"@),
        ("\u{1F60E}"@, "cool, sunglasses"@),
        ("\u{1F91E}"@, "crossed_fingers"@),
        ("\u{1F622}"@, "crying, tear"@),
        ("\u{1F483}"@, "dancer, woman dancing"@),
        ("\u{1F61E}"@, "disappointed, sad"@),
        ("\u{1F635}"@, "dizzy, dead"@),
        ("\u{1F924}"@, "drooling, salivating"@),
    ]
}

pub open spec fn emoji_rows_c() -> Seq<(Seq<char>, Seq<char>)> {
    seq![
        ("\u{1F986}"@, "duck"@),
        ("\u{1F92F}"@, "exploding_head"@),
        ("\u{1F915}"@, "face_with_bandage, sickness, operation, surgery, injury"@),
        ("\u{1F9D0}"@, "face_with_monocle, eyeglasses"@),
        ("\u{1F62E}"@, "face_with_open_mouth, jaw drop"@),
        ("\u{1F644}"@, "face_with_rolling_eyes"@),
        ("\u{1F635}\u{200D}\u{1F4AB}"@, "face_with_spiral_eyes, dizzy, hypnotized"@),
        ("\u{1F624}"@, "face_with_steam, fight"@),
        ("\u{1F912}"@, "face_with_thermometer, sick"@),
        ("\u{1F4A8}"@, "fart"@),
        ("\u{1F628}"@, "fearful_face, anxious"@),
        ("\u{1F386}"@, "fireworks"@),
        ("\u{1F4AA}"@, "flexed_bicep, muscle"@),
        ("\u{1F633}"@, "flushed, embarrassed"@),
        ("\u{1F64F}"@, "folded_hands, pray"@),
        ("\u{1F467}"@, "girl, child"@),
    ]
}

pub open spec fn emoji_rows_d() -> Seq<(Seq<char>, Seq<char>)> {
    seq![
        ("\u{1F917}"@, "greeting_hands"@),
        ("\u{1F62C}"@, "grimacing_face"@),
        ("\u{1F603}"@, "grinning_face_with_big_eyes, happy"@),
        ("\u{1F605}"@, "grinning_face_with_sweat, cold sweat"@),
        ("\u{1F3B8}"@, "guitar"@),
        ("\u{1F354}"@, "hamburger"@),
        ("\u{1F608}"@, "happy_devil, evil"@),
        ("\u{2764}\u{FE0F}"@, "heart"@),
        ("\u{1F60D}"@, "heart_eyes"@),
        ("\u{1F469}\u{200D}\u{2764}\u{FE0F}\u{200D}\u{1F468}"@, "heart_woman_man"@),
        ("\u{1F975}"@, "hot_face, heat"@),
        ("\u{1F62F}"@, "hushed, surprised, confused"@),
        ("\u{26F8}\u{FE0F}"@, "ice_skate"@),
        ("\u{1F469}\u{200D}\u{2764}\u{FE0F}\u{200D}\u{1F48B}\u{200D}\u{1F468}"@, "kiss_woman_man"@),
        ("\u{1F606}"@, "laughing"@),
        ("\u{1F602}"@, "laughing (joy)"@),
    ]
}

pub open spec fn emoji_rows_e() -> Seq<(Seq<char>, Seq<char>)> {
    seq![
        ("\u{1F92D}"@, "laughing_with_hand"@),
        ("\u{1F4A1}"@, "lightbulb"@),
        ("\u{1F62D}"@, "loudly_crying_face, crying river"@),
        ("\u{1F468}"@, "man"@),
        ("\u{1F57A}"@, "man_dancing, man dancer"@),
        ("\u{1F595}"@, "middle_finger"@),
        ("\u{1F911}"@, "money_mouth_face"@),
        ("\u{1F979}"@, "moved_eyes, holding_tears"@),
        ("\u{1F978}"@, "mustache_nerd, disguised_face"@),
        ("\u{1F922}"@, "nauseated_face, throwing_up"@),
        ("\u{1F913}"@, "nerd, eyeglasses"@),
        ("\u{1F610}"@, "neutral_face"@),
        ("\u{1F973}"@, "party_face"@),
        ("\u{1F389}"@, "party_popper"@),
        ("\u{1F614}"@, "pensive, sadder"@),
        ("\u{1F647}"@, "person_bowing, pray, sorry"@),
    ]
}

pub open spec fn emoji_rows_f() -> Seq<(Seq<char>, Seq<char>)> {
    seq![
        ("\u{1F926}"@, "person_facepalming"@),
        ("\u{1F645}"@, "person_gesturing_no"@),
        ("\u{1F646}"@, "person_gesturing_ok, yes"@),
        ("\u{1F64B}"@, "person_raising_hand, greeting"@),
        ("\u{1F52B}"@, "pistol, gun"@),
        ("\u{1F355}"@, "pizza"@),
        ("\u{1F97A}"@, "pleading, big eyes, cute"@),
        ("\u{1F478}"@, "princess"@),
        ("\u{263A}"@, "relaxed"@),
        ("\u{1F60C}"@, "relieved"@),
        ("\u{1F916}"@, "robot"@),
        ("\u{1F923}"@, "rolling_on_the_floor, rotfl"@),
        ("\u{1F631}"@, "screaming"@),
        ("\u{1F648}"@, "see_no_evil, monkey"@),
        ("\u{1F4A9}"@, "shit"@),
        ("\u{1F937}"@, "shrug"@),
    ]
}

pub open spec fn emoji_rows_g() -> Seq<(Seq<char>, Seq<char>)> {
    seq![
        ("\u{1F918}"@, "sign_of_the_horns, metal"@),
        ("\u{26F7}\u{FE0F}"@, "skier"@),
        ("\u{1F480}"@, "skull, dead"@),
        ("\u{1F634}"@, "sleepy"@),
        ("\u{1F641}"@, "slightly_frowning, sad"@),
        ("\u{1F642}"@, "slightly_smiling_face"@),
        ("\u{1F604}"@, "smiling"@),
        ("\u{1F607}"@, "smiling_face_with_halo"@),
        ("\u{1F972}"@, "smiling_face_with_tear"@),
        ("\u{1F60F}"@, "smirk"@),
        ("\u{1F927}"@, "sneezing_face"@),
        ("\u{1F929}"@, "star_struck, starry eyes"@),
        ("\u{1F9B8}\u{200D}\u{2642}\u{FE0F}"@, "superhero"@),
        ("\u{1F321}\u{FE0F}"@, "thermometer"@),
        ("\u{1F914}"@, "thinking"@),
        ("\u{1F92E}"@, "throwing_up"@),
    ]
}

pub open spec fn emoji_rows_h() -> Seq<(Seq<char>, Seq<char>)> {
    seq![
        ("\u{1F379}"@, "tropical_drink"@),
        ("\u{1F612}"@, "unamused"@),
        ("\u{1F643}"@, "upside-down"@),
        ("\u{1F44B}"@, "waving_hand"@),
        ("\u{1F609}"@, "wink"@),
        ("\u{1F61C}"@, "winking_face_with_tongue"@),
        ("\u{1F636}"@, "without mouth, speechless, mute"@),
        ("\u{1F469}"@, "woman"@),
        ("\u{1F974}"@, "woozy, zany"@),
        ("\u{1FAE1}"@, "yessir, saluting_face"@),
        ("\u{1F60B}"@, "yum, food, hungry, slurp, full belly"@),
        ("\u{1F92A}"@, "zany_face, wacky, o_O"@),
        ("\u{1F910}"@, "zipper_mouth"@),
        ("\u{1F9DF}"@, "zombie"@),
        ("\u{21B5}"@, "enter"@),
    ]
}

/// The emoji table: each emoji with the keywords it is found by.
pub open spec fn emoji_rows() -> Seq<(Seq<char>, Seq<char>)> {
    emoji_rows_a() + emoji_rows_b() + emoji_rows_c() + emoji_rows_d() + emoji_rows_e() + emoji_rows_f() + emoji_rows_g() + emoji_rows_h()
}

fn push_emoji_rows_a(table: &mut Vec<(String, String)>)
    ensures
        table_rows(final(table)@) == table_rows(old(table)@) + emoji_rows_a(),
{
    table.push((String::from_str("\u{1F44D}"), String::from_str("+1, thumbs up")));
    table.push((String::from_str("\u{1F44E}"), String::from_str("-1, thumbs down")));
    table.push((String::from_str("\u{1F620}"), String::from_str("angry")));
    table.push((String::from_str("\u{1F92C}"), String::from_str("angry_cursing")));
    table.push((String::from_str("\u{1F627}"), String::from_str("anguished, anxious, scared")));
    table.push((String::from_str("\u{1F630}"), String::from_str("anxious_face_with_sweat, sick")));
    table.push((String::from_str("\u{1F632}"), String::from_str("astonished")));
    table.push((String::from_str("\u{1F9B2}"), String::from_str("bald")));
    table.push((String::from_str("\u{1F601}"), String::from_str("beaming_face_with_smiling_eyes, grin")));
    table.push((String::from_str("\u{1F382}"), String::from_str("birthday_cake")));
    table.push((String::from_str("\u{1F618}"), String::from_str("blowing_kiss")));
    table.push((String::from_str("\u{1F60A}"), String::from_str("blush")));
    table.push((String::from_str("\u{1F490}"), String::from_str("bouquet, flowers")));
    table.push((String::from_str("\u{1F466}"), String::from_str("boy, child")));
    table.push((String::from_str("\u{1F351}"), String::from_str("butt, ass")));
    table.push((String::from_str("\u{1F919}"), String::from_str("call_me")));
    proof {
        assert(table_rows(table@) =~= table_rows(old(table)@) + emoji_rows_a());
    }
}

fn push_emoji_rows_b(table: &mut Vec<(String, String)>)
    ensures
        table_rows(final(table)@) == table_rows(old(table)@) + emoji_rows_b(),
{
    table.push((String::from_str("\u{1F90C}"), String::from_str("cazzuvo")));
    table.push((String::from_str("\u{1F9D2}"), String::from_str("child")));
    table.push((String::from_str("\u{1F942}"), String::from_str("clinking_glasses, party, drink")));
    table.push((String::from_str("\u{1F921}"), String::from_str("clown")));
    table.push((String::from_str("\u{1F378}"), String::from_str("cocktail_glass, drink")));
    table.push((String::from_str("\u{1F928}"), String::from_str("colbert, face with raised eyebrow")));
    table.push((String::from_str("\u{1F976}"), String::from_str("cold_face, freezing")));
    table.push((String::from_str("\u{1F38A}"), String::from_str("confetti_ball, party")));
    table.push((String::from_str("\u{1F615}"), String::from_str("confused, puzzled, baffled")));
    table.push((String::from_str("\u{1F60E}"), String::from_str("cool, sunglasses")));
    table.push((String::from_str("\u{1F91E}"), String::from_str("crossed_fingers")));
    table.push((String::from_str("\u{1F622}"), String::from_str("crying, tear")));
    table.push((String::from_str("\u{1F483}"), String::from_str("dancer, woman dancing")));
    table.push((String::from_str("\u{1F61E}"), String::from_str("disappointed, sad")));
    table.push((String::from_str("\u{1F635}"), String::from_str("dizzy, dead")));
    table.push((String::from_str("\u{1F924}"), String::from_str("drooling, salivating")));
    proof {
        assert(table_rows(table@) =~= table_rows(old(table)@) + emoji_rows_b());
    }
}

fn push_emoji_rows_c(table: &mut Vec<(String, String)>)
    ensures
        table_rows(final(table)@) == table_rows(old(table)@) + emoji_rows_c(),
{
    table.push((String::from_str("\u{1F986}"), String::from_str("duck")));
    table.push((String::from_str("\u{1F92F}"), String::from_str("exploding_head")));
    table.push((String::from_str("\u{1F915}"), String::from_str("face_with_bandage, sickness, operation, surgery, injury")));
    table.push((String::from_str("\u{1F9D0}"), String::from_str("face_with_monocle, eyeglasses")));
    table.push((String::from_str("\u{1F62E}"), String::from_str("face_with_open_mouth, jaw drop")));
    table.push((String::from_str("\u{1F644}"), String::from_str("face_with_rolling_eyes")));
    table.push((String::from_str("\u{1F635}\u{200D}\u{1F4AB}"), String::from_str("face_with_spiral_eyes, dizzy, hypnotized")));
    table.push((String::from_str("\u{1F624}"), String::from_str("face_with_steam, fight")));
    table.push((String::from_str("\u{1F912}"), String::from_str("face_with_thermometer, sick")));
    table.push((String::from_str("\u{1F4A8}"), String::from_str("fart")));
    table.push((String::from_str("\u{1F628}"), String::from_str("fearful_face, anxious")));
    table.push((String::from_str("\u{1F386}"), String::from_str("fireworks")));
    table.push((String::from_str("\u{1F4AA}"), String::from_str("flexed_bicep, muscle")));
    table.push((String::from_str("\u{1F633}"), String::from_str("flushed, embarrassed")));
    table.push((String::from_str("\u{1F64F}"), String::from_str("folded_hands, pray")));
    table.push((String::from_str("\u{1F467}"), String::from_str("girl, child")));
    proof {
        assert(table_rows(table@) =~= table_rows(old(table)@) + emoji_rows_c());
    }
}

fn push_emoji_rows_d(table: &mut Vec<(String, String)>)
    ensures
        table_rows(final(table)@) == table_rows(old(table)@) + emoji_rows_d(),
{
    table.push((String::from_str("\u{1F917}"), String::from_str("greeting_hands")));
    table.push((String::from_str("\u{1F62C}"), String::from_str("grimacing_face")));
    table.push((String::from_str("\u{1F603}"), String::from_str("grinning_face_with_big_eyes, happy")));
    table.push((String::from_str("\u{1F605}"), String::from_str("grinning_face_with_sweat, cold sweat")));
    table.push((String::from_str("\u{1F3B8}"), String::from_str("guitar")));
    table.push((String::from_str("\u{1F354}"), String::from_str("hamburger")));
    table.push((String::from_str("\u{1F608}"), String::from_str("happy_devil, evil")));
    table.push((String::from_str("\u{2764}\u{FE0F}"), String::from_str("heart")));
    table.push((String::from_str("\u{1F60D}"), String::from_str("heart_eyes")));
    table.push((String::from_str("\u{1F469}\u{200D}\u{2764}\u{FE0F}\u{200D}\u{1F468}"), String::from_str("heart_woman_man")));
    table.push((String::from_str("\u{1F975}"), String::from_str("hot_face, heat")));
    table.push((String::from_str("\u{1F62F}"), String::from_str("hushed, surprised, confused")));
    table.push((String::from_str("\u{26F8}\u{FE0F}"), String::from_str("ice_skate")));
    table.push((String::from_str("\u{1F469}\u{200D}\u{2764}\u{FE0F}\u{200D}\u{1F48B}\u{200D}\u{1F468}"), String::from_str("kiss_woman_man")));
    table.push((String::from_str("\u{1F606}"), String::from_str("laughing")));
    table.push((String::from_str("\u{1F602}"), String::from_str("laughing (joy)")));
    proof {
        assert(table_rows(table@) =~= table_rows(old(table)@) + emoji_rows_d());
    }
}

fn push_emoji_rows_e(table: &mut Vec<(String, String)>)
    ensures
        table_rows(final(table)@) == table_rows(old(table)@) + emoji_rows_e(),
{
    table.push((String::from_str("\u{1F92D}"), String::from_str("laughing_with_hand")));
    table.push((String::from_str("\u{1F4A1}"), String::from_str("lightbulb")));
    table.push((String::from_str("\u{1F62D}"), String::from_str("loudly_crying_face, crying river")));
    table.push((String::from_str("\u{1F468}"), String::from_str("man")));
    table.push((String::from_str("\u{1F57A}"), String::from_str("man_dancing, man dancer")));
    table.push((String::from_str("\u{1F595}"), String::from_str("middle_finger")));
    table.push((String::from_str("\u{1F911}"), String::from_str("money_mouth_face")));
    table.push((String::from_str("\u{1F979}"), String::from_str("moved_eyes, holding_tears")));
    table.push((String::from_str("\u{1F978}"), String::from_str("mustache_nerd, disguised_face")));
    table.push((String::from_str("\u{1F922}"), String::from_str("nauseated_face, throwing_up")));
    table.push((String::from_str("\u{1F913}"), String::from_str("nerd, eyeglasses")));
    table.push((String::from_str("\u{1F610}"), String::from_str("neutral_face")));
    table.push((String::from_str("\u{1F973}"), String::from_str("party_face")));
    table.push((String::from_str("\u{1F389}"), String::from_str("party_popper")));
    table.push((String::from_str("\u{1F614}"), String::from_str("pensive, sadder")));
    table.push((String::from_str("\u{1F647}"), String::from_str("person_bowing, pray, sorry")));
    proof {
        assert(table_rows(table@) =~= table_rows(old(table)@) + emoji_rows_e());
    }
}

fn push_emoji_rows_f(table: &mut Vec<(String, String)>)
    ensures
        table_rows(final(table)@) == table_rows(old(table)@) + emoji_rows_f(),
{
    table.push((String::from_str("\u{1F926}"), String::from_str("person_facepalming")));
    table.push((String::from_str("\u{1F645}"), String::from_str("person_gesturing_no")));
    table.push((String::from_str("\u{1F646}"), String::from_str("person_gesturing_ok, yes")));
    table.push((String::from_str("\u{1F64B}"), String::from_str("person_raising_hand, greeting")));
    table.push((String::from_str("\u{1F52B}"), String::from_str("pistol, gun")));
    table.push((String::from_str("\u{1F355}"), String::from_str("pizza")));
    table.push((String::from_str("\u{1F97A}"), String::from_str("pleading, big eyes, cute")));
    table.push((String::from_str("\u{1F478}"), String::from_str("princess")));
    table.push((String::from_str("\u{263A}"), String::from_str("relaxed")));
    table.push((String::from_str("\u{1F60C}"), String::from_str("relieved")));
    table.push((String::from_str("\u{1F916}"), String::from_str("robot")));
    table.push((String::from_str("\u{1F923}"), String::from_str("rolling_on_the_floor, rotfl")));
    table.push((String::from_str("\u{1F631}"), String::from_str("screaming")));
    table.push((String::from_str("\u{1F648}"), String::from_str("see_no_evil, monkey")));
    table.push((String::from_str("\u{1F4A9}"), String::from_str("shit")));
    table.push((String::from_str("\u{1F937}"), String::from_str("shrug")));
    proof {
        assert(table_rows(table@) =~= table_rows(old(table)@) + emoji_rows_f());
    }
}

fn push_emoji_rows_g(table: &mut Vec<(String, String)>)
    ensures
        table_rows(final(table)@) == table_rows(old(table)@) + emoji_rows_g(),
{
    table.push((String::from_str("\u{1F918}"), String::from_str("sign_of_the_horns, metal")));
    table.push((String::from_str("\u{26F7}\u{FE0F}"), String::from_str("skier")));
    table.push((String::from_str("\u{1F480}"), String::from_str("skull, dead")));
    table.push((String::from_str("\u{1F634}"), String::from_str("sleepy")));
    table.push((String::from_str("\u{1F641}"), String::from_str("slightly_frowning, sad")));
    table.push((String::from_str("\u{1F642}"), String::from_str("slightly_smiling_face")));
    table.push((String::from_str("\u{1F604}"), String::from_str("smiling")));
    table.push((String::from_str("\u{1F607}"), String::from_str("smiling_face_with_halo")));
    table.push((String::from_str("\u{1F972}"), String::from_str("smiling_face_with_tear")));
    table.push((String::from_str("\u{1F60F}"), String::from_str("smirk")));
    table.push((String::from_str("\u{1F927}"), String::from_str("sneezing_face")));
    table.push((String::from_str("\u{1F929}"), String::from_str("star_struck, starry eyes")));
    table.push((String::from_str("\u{1F9B8}\u{200D}\u{2642}\u{FE0F}"), String::from_str("superhero")));
    table.push((String::from_str("\u{1F321}\u{FE0F}"), String::from_str("thermometer")));
    table.push((String::from_str("\u{1F914}"), String::from_str("thinking")));
    table.push((String::from_str("\u{1F92E}"), String::from_str("throwing_up")));
    proof {
        assert(table_rows(table@) =~= table_rows(old(table)@) + emoji_rows_g());
    }
}

fn push_emoji_rows_h(table: &mut Vec<(String, String)>)
    ensures
        table_rows(final(table)@) == table_rows(old(table)@) + emoji_rows_h(),
{
    table.push((String::from_str("\u{1F379}"), String::from_str("tropical_drink")));
    table.push((String::from_str("\u{1F612}"), String::from_str("unamused")));
    table.push((String::from_str("\u{1F643}"), String::from_str("upside-down")));
    table.push((String::from_str("\u{1F44B}"), String::from_str("waving_hand")));
    table.push((String::from_str("\u{1F609}"), String::from_str("wink")));
    table.push((String::from_str("\u{1F61C}"), String::from_str("winking_face_with_tongue")));
    table.push((String::from_str("\u{1F636}"), String::from_str("without mouth, speechless, mute")));
    table.push((String::from_str("\u{1F469}"), String::from_str("woman")));
    table.push((String::from_str("\u{1F974}"), String::from_str("woozy, zany")));
    table.push((String::from_str("\u{1FAE1}"), String::from_str("yessir, saluting_face")));
    table.push((String::from_str("\u{1F60B}"), String::from_str("yum, food, hungry, slurp, full belly")));
    table.push((String::from_str("\u{1F92A}"), String::from_str("zany_face, wacky, o_O")));
    table.push((String::from_str("\u{1F910}"), String::from_str("zipper_mouth")));
    table.push((String::from_str("\u{1F9DF}"), String::from_str("zombie")));
    table.push((String::from_str("\u{21B5}"), String::from_str("enter")));
    proof {
        assert(table_rows(table@) =~= table_rows(old(table)@) + emoji_rows_h());
    }
}

fn emoji_table() -> (r: Vec<(String, String)>)
    ensures
        table_rows(r@) == emoji_rows(),
{
    let mut table: Vec<(String, String)> = Vec::new();
    assert(table_rows(table@) =~= Seq::empty());
    push_emoji_rows_a(&mut table);
    push_emoji_rows_b(&mut table);
    push_emoji_rows_c(&mut table);
    push_emoji_rows_d(&mut table);
    push_emoji_rows_e(&mut table);
    push_emoji_rows_f(&mut table);
    push_emoji_rows_g(&mut table);
    push_emoji_rows_h(&mut table);
    proof {
        assert(table_rows(table@) =~= emoji_rows());
    }
    table
}

/// Finds emojis by keyword; a pattern for it starts with `:`.
pub struct EmojiSearcher {
    table: Vec<(String, String)>,
}

impl EmojiSearcher {
    /// The (emoji, keywords) rows of the table.
    pub closed spec fn rows(&self) -> Seq<(Seq<char>, Seq<char>)> {
        table_rows(self.table@)
    }

    pub fn new() -> (r: Self)
        ensures
            r.rows() == emoji_rows(),
    {
        EmojiSearcher { table: emoji_table() }
    }
}

impl Searcher for EmojiSearcher {
    fn handles(&self, pattern: &str) -> (r: bool)
        ensures
            r == (pattern@.len() > 0 && pattern@[0] == ':'),
    {
        pattern.unicode_len() > 0 && pattern.get_char(0) == ':'
    }

    fn search(&mut self, pattern: String, search_id: u32) -> (r: Option<Vec<SearchResultEntry>>)
        ensures
            *final(self) == *old(self),
            emoji_search_outcome(*old(self), pattern@, search_id, r),
    {
        let len = pattern.as_str().unicode_len();
        if len <= 1 {
            return None;
        }
        let query = pattern.as_str().substring_char(1, len);
        proof {
            assert(query@ =~= emoji_query(pattern@));
        }
        let ghost rows = self.rows();
        let mut out: Vec<SearchResultEntry> = Vec::new();
        let mut i: usize = 0;
        while i < self.table.len()
            invariant
                rows == self.rows(),
                i <= self.table.len(),
                entry_texts(out@) == emoji_hits(rows.subrange(0, i as int), query@),
                forall|k: int|
                    0 <= k < out.len() ==> (#[trigger] out[k]).valid && out[k].search_id == search_id
                        && out[k].value is Some,
            decreases self.table.len() - i,
        {
            proof {
                assert(rows.subrange(0, i + 1).drop_last() =~= rows.subrange(0, i as int));
                assert(rows[i as int] == (self.table[i as int].0@, self.table[i as int].1@));
                reveal(Seq::filter);
            }
            if contains_text(self.table[i].1.as_str(), query) {
                let e = SearchResultEntry::new(
                    self.table[i].1.clone(),
                    Some(self.table[i].0.clone()),
                    search_id,
                    true,
                );
                let ghost before = out@;
                out.push(e);
                proof {
                    assert(entry_texts(out@) =~= entry_texts(before).push(rows[i as int]));
                }
            }
            i += 1;
        }
        proof {
            assert(rows.subrange(0, self.table.len() as int) =~= rows);
        }
        Some(out)
    }

    fn execute(&self, value: String) -> (r: Effect)
        ensures
            r == Effect::CopyAndExit(value),
    {
        Effect::CopyAndExit(value)
    }

    fn alt_execute(&self, value: String) -> (r: Option<Effect>)
        ensures
            r is None,
    {
        None
    }

    fn stop(&mut self)
        ensures
            *final(self) == *old(self),
    {
    }
}

} // verus!
