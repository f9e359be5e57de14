//! The PGP word list: two lists of 256 words, one word for each byte value.

mod facts;

use self::facts::{lemma_even_list, lemma_odd_list};
use super::parity::Parity;
use vstd::prelude::*;

verus! {

/// The even words: two-syllable words, one per byte value, used at even positions.
pub const EVEN: [&'static str; 256] = [
    "aardvark", "absurd", "accrue", "acme", "adrift", "adult", "afflict", "ahead",
    "aimless", "Algol", "allow", "alone", "ammo", "ancient", "apple", "artist",
    "assume", "Athens", "atlas", "Aztec", "baboon", "backfield", "backward", "banjo",
    "beaming", "bedlamp", "beehive", "beeswax", "befriend", "Belfast", "berserk", "billiard",
    "bison", "blackjack", "blockade", "blowtorch", "bluebird", "bombast", "bookshelf", "brackish",
    "breadline", "breakup", "brickyard", "briefcase", "Burbank", "button", "buzzard", "cement",
    "chairlift", "chatter", "checkup", "chisel", "choking", "chopper", "Christmas", "clamshell",
    "classic", "classroom", "cleanup", "clockwork", "cobra", "commence", "concert", "cowbell",
    "crackdown", "cranky", "crowfoot", "crucial", "crumpled", "crusade", "cubic", "dashboard",
    "deadbolt", "deckhand", "dogsled", "dragnet", "drainage", "dreadful", "drifter", "dropper",
    "drumbeat", "drunken", "Dupont", "dwelling", "eating", "edict", "egghead", "eightball",
    "endorse", "endow", "enlist", "erase", "escape", "exceed", "eyeglass", "eyetooth",
    "facial", "fallout", "flagpole", "flatfoot", "flytrap", "fracture", "framework", "freedom",
    "frighten", "gazelle", "Geiger", "glitter", "glucose", "goggles", "goldfish", "gremlin",
    "guidance", "hamlet", "highchair", "hockey", "indoors", "indulge", "inverse", "involve",
    "island", "jawbone", "keyboard", "kickoff", "kiwi", "klaxon", "locale", "lockup",
    "merit", "minnow", "miser", "Mohawk", "mural", "music", "necklace", "Neptune",
    "newborn", "nightbird", "Oakland", "obtuse", "offload", "optic", "orca", "payday",
    "peachy", "pheasant", "physique", "playhouse", "Pluto", "preclude", "prefer", "preshrunk",
    "printer", "prowler", "pupil", "puppy", "python", "quadrant", "quiver", "quota",
    "ragtime", "ratchet", "rebirth", "reform", "regain", "reindeer", "rematch", "repay",
    "retouch", "revenge", "reward", "rhythm", "ribcage", "ringbolt", "robust", "rocker",
    "ruffled", "sailboat", "sawdust", "scallion", "scenic", "scorecard", "Scotland", "seabird",
    "select", "sentence", "shadow", "shamrock", "showgirl", "skullcap", "skydive", "slingshot",
    "slowdown", "snapline", "snapshot", "snowcap", "snowslide", "solo", "southward", "soybean",
    "spaniel", "spearhead", "spellbind", "spheroid", "spigot", "spindle", "spyglass", "stagehand",
    "stagnate", "stairway", "standard", "stapler", "steamship", "sterling", "stockman", "stopwatch",
    "stormy", "sugar", "surmount", "suspense", "sweatband", "swelter", "tactics", "talon",
    "tapeworm", "tempest", "tiger", "tissue", "tonic", "topmost", "tracker", "transit",
    "trauma", "treadmill", "Trojan", "trouble", "tumor", "tunnel", "tycoon", "uncut",
    "unearth", "unwind", "uproot", "upset", "upshot", "vapor", "village", "virus",
    "Vulcan", "waffle", "wallet", "watchword", "wayside", "willow", "woodlark", "Zulu",
];

/// The odd words: three-syllable words, one per byte value, used at odd positions.
pub const ODD: [&'static str; 256] = [
    "adroitness", "adviser", "aftermath", "aggregate", "alkali", "almighty", "amulet", "amusement",
    "antenna", "applicant", "Apollo", "armistice", "article", "asteroid", "Atlantic", "atmosphere",
    "autopsy", "Babylon", "backwater", "barbecue", "belowground", "bifocals", "bodyguard", "bookseller",
    "borderline", "bottomless", "Bradbury", "bravado", "Brazilian", "breakaway", "Burlington", "businessman",
    "butterfat", "Camelot", "candidate", "cannonball", "Capricorn", "caravan", "caretaker", "celebrate",
    "cellulose", "certify", "chambermaid", "Cherokee", "Chicago", "clergyman", "coherence", "combustion",
    "commando", "company", "component", "concurrent", "confidence", "conformist", "congregate", "consensus",
    "consulting", "corporate", "corrosion", "councilman", "crossover", "crucifix", "cumbersome", "customer",
    "Dakota", "decadence", "December", "decimal", "designing", "detector", "detergent", "determine",
    "dictator", "dinosaur", "direction", "disable", "disbelief", "disruptive", "distortion", "document",
    "embezzle", "enchanting", "enrollment", "enterprise", "equation", "equipment", "escapade", "Eskimo",
    "everyday", "examine", "existence", "exodus", "fascinate", "filament", "finicky", "forever",
    "fortitude", "frequency", "gadgetry", "Galveston", "getaway", "glossary", "gossamer", "graduate",
    "gravity", "guitarist", "hamburger", "Hamilton", "handiwork", "hazardous", "headwaters", "hemisphere",
    "hesitate", "hideaway", "holiness", "hurricane", "hydraulic", "impartial", "impetus", "inception",
    "indigo", "inertia", "infancy", "inferno", "informant", "insincere", "insurgent", "integrate",
    "intention", "inventive", "Istanbul", "Jamaica", "Jupiter", "leprosy", "letterhead", "liberty",
    "maritime", "matchmaker", "maverick", "Medusa", "megaton", "microscope", "microwave", "midsummer",
    "millionaire", "miracle", "misnomer", "molasses", "molecule", "Montana", "monument", "mosquito",
    "narrative", "nebula", "newsletter", "Norwegian", "October", "Ohio", "onlooker", "opulent",
    "Orlando", "outfielder", "Pacific", "pandemic", "Pandora", "paperweight", "paragon", "paragraph",
    "paramount", "passenger", "pedigree", "Pegasus", "penetrate", "perceptive", "performance", "pharmacy",
    "phonetic", "photograph", "pioneer", "pocketful", "politeness", "positive", "potato", "processor",
    "provincial", "proximate", "puberty", "publisher", "pyramid", "quantity", "racketeer", "rebellion",
    "recipe", "recover", "repellent", "replica", "reproduce", "resistor", "responsive", "retraction",
    "retrieval", "retrospect", "revenue", "revival", "revolver", "sandalwood", "sardonic", "Saturday",
    "savagery", "scavenger", "sensation", "sociable", "souvenir", "specialist", "speculate", "stethoscope",
    "stupendous", "supportive", "surrender", "suspicious", "sympathy", "tambourine", "telephone", "therapist",
    "tobacco", "tolerance", "tomorrow", "torpedo", "tradition", "travesty", "trombonist", "truncated",
    "typewriter", "ultimate", "undaunted", "underfoot", "unicorn", "unify", "universe", "unravel",
    "upcoming", "vacancy", "vagabond", "vertigo", "Virginia", "visitor", "vocalist", "voyager",
    "warranty", "Waterloo", "whimsical", "Wichita", "Wilmington", "Wyoming", "yesteryear", "Yucatan",
];

/// A character with ASCII upper case mapped to lower case.
pub open spec fn ascii_lower_char(c: char) -> char {
    if 'A' <= c && c <= 'Z' {
        ((c as u32) + 32) as char
    } else {
        c
    }
}

/// A character sequence with ASCII upper case mapped to lower case.
pub open spec fn ascii_lower(s: Seq<char>) -> Seq<char> {
    s.map_values(|c: char| ascii_lower_char(c))
}

/// An ASCII letter.
pub open spec fn is_ascii_letter(c: char) -> bool {
    ('a' <= c && c <= 'z') || ('A' <= c && c <= 'Z')
}

/// The code of the character at `k`, or 0 past the end.
pub open spec fn code_at(s: Seq<char>, k: int) -> int {
    if k < s.len() {
        s[k] as int
    } else {
        0
    }
}

/// Whether position `k` holds an ASCII letter or lies past the end.
pub open spec fn letter_or_end(s: Seq<char>, k: int) -> bool {
    k >= s.len() || is_ascii_letter(s[k])
}

/// A word of the lists: one to eleven ASCII letters.
pub open spec fn is_plain_word(s: Seq<char>) -> bool {
    &&& 1 <= s.len() <= 11
    &&& letter_or_end(s, 0) && letter_or_end(s, 1) && letter_or_end(s, 2) && letter_or_end(s, 3)
    &&& letter_or_end(s, 4) && letter_or_end(s, 5) && letter_or_end(s, 6) && letter_or_end(s, 7)
    &&& letter_or_end(s, 8) && letter_or_end(s, 9) && letter_or_end(s, 10)
}

/// The first twelve characters of the lower-case form of a word as a number in base 128
/// (positions past the end count as 0): words of at most twelve ASCII characters compare
/// by this number as their lower-case forms do in dictionary order.
pub open spec fn sort_key(s: Seq<char>) -> int {
    let l = ascii_lower(s);
    code_at(l, 0) * 0x20000000000000000000 + code_at(l, 1) * 0x400000000000000000
        + code_at(l, 2) * 0x8000000000000000 + code_at(l, 3) * 0x100000000000000
        + code_at(l, 4) * 0x2000000000000 + code_at(l, 5) * 0x40000000000
        + code_at(l, 6) * 0x800000000 + code_at(l, 7) * 0x10000000
        + code_at(l, 8) * 0x200000 + code_at(l, 9) * 0x4000
        + code_at(l, 10) * 0x80 + code_at(l, 11)
}

/// The position in dictionary order of the odd word at `i`: the odd list is in
/// dictionary order but for its words at 9 and 10 ("applicant", "Apollo").
pub open spec fn odd_rank(i: int) -> int {
    if i == 9 {
        10
    } else if i == 10 {
        9
    } else {
        i
    }
}

/// The word of byte `b` in the list of parity `p`.
pub open spec fn word_for(b: u8, p: Parity) -> Seq<char> {
    match p {
        Parity::Even => EVEN[b as int]@,
        Parity::Odd => ODD[b as int]@,
    }
}

/// Along a sequence of keys that increases from each to the next, keys increase.
proof fn lemma_increasing(k: spec_fn(int) -> int, n: int, i: int, j: int)
    requires
        forall|x: int| 0 <= x < n - 1 ==> #[trigger] k(x) < k(x + 1),
        0 <= i < j < n,
    ensures
        k(i) < k(j),
    decreases j - i,
{
    if j > i + 1 {
        lemma_increasing(k, n, i, j - 1);
        assert(k(j - 1) < k(j));
    }
}

/// Every word of both lists is one to eleven ASCII letters.
pub proof fn lemma_words_plain(b: u8, p: Parity)
    ensures
        is_plain_word(word_for(b, p)),
{
    lemma_even_list();
    lemma_odd_list();
}

/// Within each list, the words of two different bytes differ even when upper and
/// lower case are not told apart.
pub proof fn lemma_words_distinct(b1: u8, b2: u8, p: Parity)
    requires
        b1 != b2,
    ensures
        ascii_lower(word_for(b1, p)) != ascii_lower(word_for(b2, p)),
{
    let (lo, hi) = if b1 < b2 {
        (b1 as int, b2 as int)
    } else {
        (b2 as int, b1 as int)
    };
    match p {
        Parity::Even => {
            lemma_even_list();
            let k = |x: int| sort_key(EVEN[x]@);
            lemma_increasing(k, 256, lo, hi);
        },
        Parity::Odd => {
            lemma_odd_list();
            let k = |x: int| sort_key(ODD[odd_rank(x)]@);
            let (rlo, rhi) = if odd_rank(lo) < odd_rank(hi) {
                (odd_rank(lo), odd_rank(hi))
            } else {
                (odd_rank(hi), odd_rank(lo))
            };
            lemma_increasing(k, 256, rlo, rhi);
        },
    }
}

/// Every character of a word of the lists is an ASCII letter.
pub proof fn lemma_plain_word_letters(s: Seq<char>)
    requires
        is_plain_word(s),
    ensures
        forall|k: int| 0 <= k < s.len() ==> is_ascii_letter(#[trigger] s[k]),
{
    assert forall|k: int| 0 <= k < s.len() implies is_ascii_letter(#[trigger] s[k]) by {
        assert(letter_or_end(s, k));
    }
}

/// Every word of both lists is ASCII text.
pub proof fn lemma_words_ascii(b: u8, p: Parity)
    ensures
        vstd::utf8::is_ascii_chars(word_for(b, p)),
{
    lemma_words_plain(b, p);
    lemma_plain_word_letters(word_for(b, p));
}

} // verus!
