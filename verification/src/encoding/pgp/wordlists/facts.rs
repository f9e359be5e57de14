//! Facts about the two word lists, proved word by word.

use super::{is_plain_word, odd_rank, sort_key, EVEN, ODD};
use vstd::prelude::*;

verus! {

/// The even words at 0 to 15 are plain, and their sort keys increase
/// from each to the next in dictionary order.
proof fn lemma_even_0_15()
    ensures
        forall|i: int| 0 <= i < 16 ==> is_plain_word(#[trigger] EVEN[i]@),
        forall|i: int|
            0 <= i < 16 ==> #[trigger] sort_key(EVEN[i]@) < sort_key(EVEN[i + 1]@),
{
    reveal_strlit("aardvark");
    reveal_strlit("absurd");
    reveal_strlit("accrue");
    reveal_strlit("acme");
    reveal_strlit("adrift");
    reveal_strlit("adult");
    reveal_strlit("afflict");
    reveal_strlit("ahead");
    reveal_strlit("aimless");
    reveal_strlit("Algol");
    reveal_strlit("allow");
    reveal_strlit("alone");
    reveal_strlit("ammo");
    reveal_strlit("ancient");
    reveal_strlit("apple");
    reveal_strlit("artist");
    reveal_strlit("assume");
    assert forall|i: int| 0 <= i < 16 implies is_plain_word(#[trigger] EVEN[i]@) by {
        if i == 0 {
        } else if i == 1 {
        } else if i == 2 {
        } else if i == 3 {
        } else if i == 4 {
        } else if i == 5 {
        } else if i == 6 {
        } else if i == 7 {
        } else if i == 8 {
        } else if i == 9 {
        } else if i == 10 {
        } else if i == 11 {
        } else if i == 12 {
        } else if i == 13 {
        } else if i == 14 {
        } else if i == 15 {
        }
    }
    assert forall|i: int| 0 <= i < 16 implies #[trigger] sort_key(EVEN[i]@) < sort_key(
        EVEN[i + 1]@,
    ) by {
        if i == 0 {
        } else if i == 1 {
        } else if i == 2 {
        } else if i == 3 {
        } else if i == 4 {
        } else if i == 5 {
        } else if i == 6 {
        } else if i == 7 {
        } else if i == 8 {
        } else if i == 9 {
        } else if i == 10 {
        } else if i == 11 {
        } else if i == 12 {
        } else if i == 13 {
        } else if i == 14 {
        } else if i == 15 {
        }
    }
}

/// The even words at 16 to 31 are plain, and their sort keys increase
/// from each to the next in dictionary order.
proof fn lemma_even_16_31()
    ensures
        forall|i: int| 16 <= i < 32 ==> is_plain_word(#[trigger] EVEN[i]@),
        forall|i: int|
            16 <= i < 32 ==> #[trigger] sort_key(EVEN[i]@) < sort_key(EVEN[i + 1]@),
{
    reveal_strlit("assume");
    reveal_strlit("Athens");
    reveal_strlit("atlas");
    reveal_strlit("Aztec");
    reveal_strlit("baboon");
    reveal_strlit("backfield");
    reveal_strlit("backward");
    reveal_strlit("banjo");
    reveal_strlit("beaming");
    reveal_strlit("bedlamp");
    reveal_strlit("beehive");
    reveal_strlit("beeswax");
    reveal_strlit("befriend");
    reveal_strlit("Belfast");
    reveal_strlit("berserk");
    reveal_strlit("billiard");
    reveal_strlit("bison");
    assert forall|i: int| 16 <= i < 32 implies is_plain_word(#[trigger] EVEN[i]@) by {
        if i == 16 {
        } else if i == 17 {
        } else if i == 18 {
        } else if i == 19 {
        } else if i == 20 {
        } else if i == 21 {
        } else if i == 22 {
        } else if i == 23 {
        } else if i == 24 {
        } else if i == 25 {
        } else if i == 26 {
        } else if i == 27 {
        } else if i == 28 {
        } else if i == 29 {
        } else if i == 30 {
        } else if i == 31 {
        }
    }
    assert forall|i: int| 16 <= i < 32 implies #[trigger] sort_key(EVEN[i]@) < sort_key(
        EVEN[i + 1]@,
    ) by {
        if i == 16 {
        } else if i == 17 {
        } else if i == 18 {
        } else if i == 19 {
        } else if i == 20 {
        } else if i == 21 {
        } else if i == 22 {
        } else if i == 23 {
        } else if i == 24 {
        } else if i == 25 {
        } else if i == 26 {
        } else if i == 27 {
        } else if i == 28 {
        } else if i == 29 {
        } else if i == 30 {
        } else if i == 31 {
        }
    }
}

/// The even words at 32 to 47 are plain, and their sort keys increase
/// from each to the next in dictionary order.
proof fn lemma_even_32_47()
    ensures
        forall|i: int| 32 <= i < 48 ==> is_plain_word(#[trigger] EVEN[i]@),
        forall|i: int|
            32 <= i < 48 ==> #[trigger] sort_key(EVEN[i]@) < sort_key(EVEN[i + 1]@),
{
    reveal_strlit("bison");
    reveal_strlit("blackjack");
    reveal_strlit("blockade");
    reveal_strlit("blowtorch");
    reveal_strlit("bluebird");
    reveal_strlit("bombast");
    reveal_strlit("bookshelf");
    reveal_strlit("brackish");
    reveal_strlit("breadline");
    reveal_strlit("breakup");
    reveal_strlit("brickyard");
    reveal_strlit("briefcase");
    reveal_strlit("Burbank");
    reveal_strlit("button");
    reveal_strlit("buzzard");
    reveal_strlit("cement");
    reveal_strlit("chairlift");
    assert forall|i: int| 32 <= i < 48 implies is_plain_word(#[trigger] EVEN[i]@) by {
        if i == 32 {
        } else if i == 33 {
        } else if i == 34 {
        } else if i == 35 {
        } else if i == 36 {
        } else if i == 37 {
        } else if i == 38 {
        } else if i == 39 {
        } else if i == 40 {
        } else if i == 41 {
        } else if i == 42 {
        } else if i == 43 {
        } else if i == 44 {
        } else if i == 45 {
        } else if i == 46 {
        } else if i == 47 {
        }
    }
    assert forall|i: int| 32 <= i < 48 implies #[trigger] sort_key(EVEN[i]@) < sort_key(
        EVEN[i + 1]@,
    ) by {
        if i == 32 {
        } else if i == 33 {
        } else if i == 34 {
        } else if i == 35 {
        } else if i == 36 {
        } else if i == 37 {
        } else if i == 38 {
        } else if i == 39 {
        } else if i == 40 {
        } else if i == 41 {
        } else if i == 42 {
        } else if i == 43 {
        } else if i == 44 {
        } else if i == 45 {
        } else if i == 46 {
        } else if i == 47 {
        }
    }
}

/// The even words at 48 to 63 are plain, and their sort keys increase
/// from each to the next in dictionary order.
proof fn lemma_even_48_63()
    ensures
        forall|i: int| 48 <= i < 64 ==> is_plain_word(#[trigger] EVEN[i]@),
        forall|i: int|
            48 <= i < 64 ==> #[trigger] sort_key(EVEN[i]@) < sort_key(EVEN[i + 1]@),
{
    reveal_strlit("chairlift");
    reveal_strlit("chatter");
    reveal_strlit("checkup");
    reveal_strlit("chisel");
    reveal_strlit("choking");
    reveal_strlit("chopper");
    reveal_strlit("Christmas");
    reveal_strlit("clamshell");
    reveal_strlit("classic");
    reveal_strlit("classroom");
    reveal_strlit("cleanup");
    reveal_strlit("clockwork");
    reveal_strlit("cobra");
    reveal_strlit("commence");
    reveal_strlit("concert");
    reveal_strlit("cowbell");
    reveal_strlit("crackdown");
    assert forall|i: int| 48 <= i < 64 implies is_plain_word(#[trigger] EVEN[i]@) by {
        if i == 48 {
        } else if i == 49 {
        } else if i == 50 {
        } else if i == 51 {
        } else if i == 52 {
        } else if i == 53 {
        } else if i == 54 {
        } else if i == 55 {
        } else if i == 56 {
        } else if i == 57 {
        } else if i == 58 {
        } else if i == 59 {
        } else if i == 60 {
        } else if i == 61 {
        } else if i == 62 {
        } else if i == 63 {
        }
    }
    assert forall|i: int| 48 <= i < 64 implies #[trigger] sort_key(EVEN[i]@) < sort_key(
        EVEN[i + 1]@,
    ) by {
        if i == 48 {
        } else if i == 49 {
        } else if i == 50 {
        } else if i == 51 {
        } else if i == 52 {
        } else if i == 53 {
        } else if i == 54 {
        } else if i == 55 {
        } else if i == 56 {
        } else if i == 57 {
        } else if i == 58 {
        } else if i == 59 {
        } else if i == 60 {
        } else if i == 61 {
        } else if i == 62 {
        } else if i == 63 {
        }
    }
}

/// The even words at 64 to 79 are plain, and their sort keys increase
/// from each to the next in dictionary order.
proof fn lemma_even_64_79()
    ensures
        forall|i: int| 64 <= i < 80 ==> is_plain_word(#[trigger] EVEN[i]@),
        forall|i: int|
            64 <= i < 80 ==> #[trigger] sort_key(EVEN[i]@) < sort_key(EVEN[i + 1]@),
{
    reveal_strlit("crackdown");
    reveal_strlit("cranky");
    reveal_strlit("crowfoot");
    reveal_strlit("crucial");
    reveal_strlit("crumpled");
    reveal_strlit("crusade");
    reveal_strlit("cubic");
    reveal_strlit("dashboard");
    reveal_strlit("deadbolt");
    reveal_strlit("deckhand");
    reveal_strlit("dogsled");
    reveal_strlit("dragnet");
    reveal_strlit("drainage");
    reveal_strlit("dreadful");
    reveal_strlit("drifter");
    reveal_strlit("dropper");
    reveal_strlit("drumbeat");
    assert forall|i: int| 64 <= i < 80 implies is_plain_word(#[trigger] EVEN[i]@) by {
        if i == 64 {
        } else if i == 65 {
        } else if i == 66 {
        } else if i == 67 {
        } else if i == 68 {
        } else if i == 69 {
        } else if i == 70 {
        } else if i == 71 {
        } else if i == 72 {
        } else if i == 73 {
        } else if i == 74 {
        } else if i == 75 {
        } else if i == 76 {
        } else if i == 77 {
        } else if i == 78 {
        } else if i == 79 {
        }
    }
    assert forall|i: int| 64 <= i < 80 implies #[trigger] sort_key(EVEN[i]@) < sort_key(
        EVEN[i + 1]@,
    ) by {
        if i == 64 {
        } else if i == 65 {
        } else if i == 66 {
        } else if i == 67 {
        } else if i == 68 {
        } else if i == 69 {
        } else if i == 70 {
        } else if i == 71 {
        } else if i == 72 {
        } else if i == 73 {
        } else if i == 74 {
        } else if i == 75 {
        } else if i == 76 {
        } else if i == 77 {
        } else if i == 78 {
        } else if i == 79 {
        }
    }
}

/// The even words at 80 to 95 are plain, and their sort keys increase
/// from each to the next in dictionary order.
proof fn lemma_even_80_95()
    ensures
        forall|i: int| 80 <= i < 96 ==> is_plain_word(#[trigger] EVEN[i]@),
        forall|i: int|
            80 <= i < 96 ==> #[trigger] sort_key(EVEN[i]@) < sort_key(EVEN[i + 1]@),
{
    reveal_strlit("drumbeat");
    reveal_strlit("drunken");
    reveal_strlit("Dupont");
    reveal_strlit("dwelling");
    reveal_strlit("eating");
    reveal_strlit("edict");
    reveal_strlit("egghead");
    reveal_strlit("eightball");
    reveal_strlit("endorse");
    reveal_strlit("endow");
    reveal_strlit("enlist");
    reveal_strlit("erase");
    reveal_strlit("escape");
    reveal_strlit("exceed");
    reveal_strlit("eyeglass");
    reveal_strlit("eyetooth");
    reveal_strlit("facial");
    assert forall|i: int| 80 <= i < 96 implies is_plain_word(#[trigger] EVEN[i]@) by {
        if i == 80 {
        } else if i == 81 {
        } else if i == 82 {
        } else if i == 83 {
        } else if i == 84 {
        } else if i == 85 {
        } else if i == 86 {
        } else if i == 87 {
        } else if i == 88 {
        } else if i == 89 {
        } else if i == 90 {
        } else if i == 91 {
        } else if i == 92 {
        } else if i == 93 {
        } else if i == 94 {
        } else if i == 95 {
        }
    }
    assert forall|i: int| 80 <= i < 96 implies #[trigger] sort_key(EVEN[i]@) < sort_key(
        EVEN[i + 1]@,
    ) by {
        if i == 80 {
        } else if i == 81 {
        } else if i == 82 {
        } else if i == 83 {
        } else if i == 84 {
        } else if i == 85 {
        } else if i == 86 {
        } else if i == 87 {
        } else if i == 88 {
        } else if i == 89 {
        } else if i == 90 {
        } else if i == 91 {
        } else if i == 92 {
        } else if i == 93 {
        } else if i == 94 {
        } else if i == 95 {
        }
    }
}

/// The even words at 96 to 111 are plain, and their sort keys increase
/// from each to the next in dictionary order.
proof fn lemma_even_96_111()
    ensures
        forall|i: int| 96 <= i < 112 ==> is_plain_word(#[trigger] EVEN[i]@),
        forall|i: int|
            96 <= i < 112 ==> #[trigger] sort_key(EVEN[i]@) < sort_key(EVEN[i + 1]@),
{
    reveal_strlit("facial");
    reveal_strlit("fallout");
    reveal_strlit("flagpole");
    reveal_strlit("flatfoot");
    reveal_strlit("flytrap");
    reveal_strlit("fracture");
    reveal_strlit("framework");
    reveal_strlit("freedom");
    reveal_strlit("frighten");
    reveal_strlit("gazelle");
    reveal_strlit("Geiger");
    reveal_strlit("glitter");
    reveal_strlit("glucose");
    reveal_strlit("goggles");
    reveal_strlit("goldfish");
    reveal_strlit("gremlin");
    reveal_strlit("guidance");
    assert forall|i: int| 96 <= i < 112 implies is_plain_word(#[trigger] EVEN[i]@) by {
        if i == 96 {
        } else if i == 97 {
        } else if i == 98 {
        } else if i == 99 {
        } else if i == 100 {
        } else if i == 101 {
        } else if i == 102 {
        } else if i == 103 {
        } else if i == 104 {
        } else if i == 105 {
        } else if i == 106 {
        } else if i == 107 {
        } else if i == 108 {
        } else if i == 109 {
        } else if i == 110 {
        } else if i == 111 {
        }
    }
    assert forall|i: int| 96 <= i < 112 implies #[trigger] sort_key(EVEN[i]@) < sort_key(
        EVEN[i + 1]@,
    ) by {
        if i == 96 {
        } else if i == 97 {
        } else if i == 98 {
        } else if i == 99 {
        } else if i == 100 {
        } else if i == 101 {
        } else if i == 102 {
        } else if i == 103 {
        } else if i == 104 {
        } else if i == 105 {
        } else if i == 106 {
        } else if i == 107 {
        } else if i == 108 {
        } else if i == 109 {
        } else if i == 110 {
        } else if i == 111 {
        }
    }
}

/// The even words at 112 to 127 are plain, and their sort keys increase
/// from each to the next in dictionary order.
proof fn lemma_even_112_127()
    ensures
        forall|i: int| 112 <= i < 128 ==> is_plain_word(#[trigger] EVEN[i]@),
        forall|i: int|
            112 <= i < 128 ==> #[trigger] sort_key(EVEN[i]@) < sort_key(EVEN[i + 1]@),
{
    reveal_strlit("guidance");
    reveal_strlit("hamlet");
    reveal_strlit("highchair");
    reveal_strlit("hockey");
    reveal_strlit("indoors");
    reveal_strlit("indulge");
    reveal_strlit("inverse");
    reveal_strlit("involve");
    reveal_strlit("island");
    reveal_strlit("jawbone");
    reveal_strlit("keyboard");
    reveal_strlit("kickoff");
    reveal_strlit("kiwi");
    reveal_strlit("klaxon");
    reveal_strlit("locale");
    reveal_strlit("lockup");
    reveal_strlit("merit");
    assert forall|i: int| 112 <= i < 128 implies is_plain_word(#[trigger] EVEN[i]@) by {
        if i == 112 {
        } else if i == 113 {
        } else if i == 114 {
        } else if i == 115 {
        } else if i == 116 {
        } else if i == 117 {
        } else if i == 118 {
        } else if i == 119 {
        } else if i == 120 {
        } else if i == 121 {
        } else if i == 122 {
        } else if i == 123 {
        } else if i == 124 {
        } else if i == 125 {
        } else if i == 126 {
        } else if i == 127 {
        }
    }
    assert forall|i: int| 112 <= i < 128 implies #[trigger] sort_key(EVEN[i]@) < sort_key(
        EVEN[i + 1]@,
    ) by {
        if i == 112 {
        } else if i == 113 {
        } else if i == 114 {
        } else if i == 115 {
        } else if i == 116 {
        } else if i == 117 {
        } else if i == 118 {
        } else if i == 119 {
        } else if i == 120 {
        } else if i == 121 {
        } else if i == 122 {
        } else if i == 123 {
        } else if i == 124 {
        } else if i == 125 {
        } else if i == 126 {
        } else if i == 127 {
        }
    }
}

/// The even words at 128 to 143 are plain, and their sort keys increase
/// from each to the next in dictionary order.
proof fn lemma_even_128_143()
    ensures
        forall|i: int| 128 <= i < 144 ==> is_plain_word(#[trigger] EVEN[i]@),
        forall|i: int|
            128 <= i < 144 ==> #[trigger] sort_key(EVEN[i]@) < sort_key(EVEN[i + 1]@),
{
    reveal_strlit("merit");
    reveal_strlit("minnow");
    reveal_strlit("miser");
    reveal_strlit("Mohawk");
    reveal_strlit("mural");
    reveal_strlit("music");
    reveal_strlit("necklace");
    reveal_strlit("Neptune");
    reveal_strlit("newborn");
    reveal_strlit("nightbird");
    reveal_strlit("Oakland");
    reveal_strlit("obtuse");
    reveal_strlit("offload");
    reveal_strlit("optic");
    reveal_strlit("orca");
    reveal_strlit("payday");
    reveal_strlit("peachy");
    assert forall|i: int| 128 <= i < 144 implies is_plain_word(#[trigger] EVEN[i]@) by {
        if i == 128 {
        } else if i == 129 {
        } else if i == 130 {
        } else if i == 131 {
        } else if i == 132 {
        } else if i == 133 {
        } else if i == 134 {
        } else if i == 135 {
        } else if i == 136 {
        } else if i == 137 {
        } else if i == 138 {
        } else if i == 139 {
        } else if i == 140 {
        } else if i == 141 {
        } else if i == 142 {
        } else if i == 143 {
        }
    }
    assert forall|i: int| 128 <= i < 144 implies #[trigger] sort_key(EVEN[i]@) < sort_key(
        EVEN[i + 1]@,
    ) by {
        if i == 128 {
        } else if i == 129 {
        } else if i == 130 {
        } else if i == 131 {
        } else if i == 132 {
        } else if i == 133 {
        } else if i == 134 {
        } else if i == 135 {
        } else if i == 136 {
        } else if i == 137 {
        } else if i == 138 {
        } else if i == 139 {
        } else if i == 140 {
        } else if i == 141 {
        } else if i == 142 {
        } else if i == 143 {
        }
    }
}

/// The even words at 144 to 159 are plain, and their sort keys increase
/// from each to the next in dictionary order.
proof fn lemma_even_144_159()
    ensures
        forall|i: int| 144 <= i < 160 ==> is_plain_word(#[trigger] EVEN[i]@),
        forall|i: int|
            144 <= i < 160 ==> #[trigger] sort_key(EVEN[i]@) < sort_key(EVEN[i + 1]@),
{
    reveal_strlit("peachy");
    reveal_strlit("pheasant");
    reveal_strlit("physique");
    reveal_strlit("playhouse");
    reveal_strlit("Pluto");
    reveal_strlit("preclude");
    reveal_strlit("prefer");
    reveal_strlit("preshrunk");
    reveal_strlit("printer");
    reveal_strlit("prowler");
    reveal_strlit("pupil");
    reveal_strlit("puppy");
    reveal_strlit("python");
    reveal_strlit("quadrant");
    reveal_strlit("quiver");
    reveal_strlit("quota");
    reveal_strlit("ragtime");
    assert forall|i: int| 144 <= i < 160 implies is_plain_word(#[trigger] EVEN[i]@) by {
        if i == 144 {
        } else if i == 145 {
        } else if i == 146 {
        } else if i == 147 {
        } else if i == 148 {
        } else if i == 149 {
        } else if i == 150 {
        } else if i == 151 {
        } else if i == 152 {
        } else if i == 153 {
        } else if i == 154 {
        } else if i == 155 {
        } else if i == 156 {
        } else if i == 157 {
        } else if i == 158 {
        } else if i == 159 {
        }
    }
    assert forall|i: int| 144 <= i < 160 implies #[trigger] sort_key(EVEN[i]@) < sort_key(
        EVEN[i + 1]@,
    ) by {
        if i == 144 {
        } else if i == 145 {
        } else if i == 146 {
        } else if i == 147 {
        } else if i == 148 {
        } else if i == 149 {
        } else if i == 150 {
        } else if i == 151 {
        } else if i == 152 {
        } else if i == 153 {
        } else if i == 154 {
        } else if i == 155 {
        } else if i == 156 {
        } else if i == 157 {
        } else if i == 158 {
        } else if i == 159 {
        }
    }
}

/// The even words at 160 to 175 are plain, and their sort keys increase
/// from each to the next in dictionary order.
proof fn lemma_even_160_175()
    ensures
        forall|i: int| 160 <= i < 176 ==> is_plain_word(#[trigger] EVEN[i]@),
        forall|i: int|
            160 <= i < 176 ==> #[trigger] sort_key(EVEN[i]@) < sort_key(EVEN[i + 1]@),
{
    reveal_strlit("ragtime");
    reveal_strlit("ratchet");
    reveal_strlit("rebirth");
    reveal_strlit("reform");
    reveal_strlit("regain");
    reveal_strlit("reindeer");
    reveal_strlit("rematch");
    reveal_strlit("repay");
    reveal_strlit("retouch");
    reveal_strlit("revenge");
    reveal_strlit("reward");
    reveal_strlit("rhythm");
    reveal_strlit("ribcage");
    reveal_strlit("ringbolt");
    reveal_strlit("robust");
    reveal_strlit("rocker");
    reveal_strlit("ruffled");
    assert forall|i: int| 160 <= i < 176 implies is_plain_word(#[trigger] EVEN[i]@) by {
        if i == 160 {
        } else if i == 161 {
        } else if i == 162 {
        } else if i == 163 {
        } else if i == 164 {
        } else if i == 165 {
        } else if i == 166 {
        } else if i == 167 {
        } else if i == 168 {
        } else if i == 169 {
        } else if i == 170 {
        } else if i == 171 {
        } else if i == 172 {
        } else if i == 173 {
        } else if i == 174 {
        } else if i == 175 {
        }
    }
    assert forall|i: int| 160 <= i < 176 implies #[trigger] sort_key(EVEN[i]@) < sort_key(
        EVEN[i + 1]@,
    ) by {
        if i == 160 {
        } else if i == 161 {
        } else if i == 162 {
        } else if i == 163 {
        } else if i == 164 {
        } else if i == 165 {
        } else if i == 166 {
        } else if i == 167 {
        } else if i == 168 {
        } else if i == 169 {
        } else if i == 170 {
        } else if i == 171 {
        } else if i == 172 {
        } else if i == 173 {
        } else if i == 174 {
        } else if i == 175 {
        }
    }
}

/// The even words at 176 to 191 are plain, and their sort keys increase
/// from each to the next in dictionary order.
proof fn lemma_even_176_191()
    ensures
        forall|i: int| 176 <= i < 192 ==> is_plain_word(#[trigger] EVEN[i]@),
        forall|i: int|
            176 <= i < 192 ==> #[trigger] sort_key(EVEN[i]@) < sort_key(EVEN[i + 1]@),
{
    reveal_strlit("ruffled");
    reveal_strlit("sailboat");
    reveal_strlit("sawdust");
    reveal_strlit("scallion");
    reveal_strlit("scenic");
    reveal_strlit("scorecard");
    reveal_strlit("Scotland");
    reveal_strlit("seabird");
    reveal_strlit("select");
    reveal_strlit("sentence");
    reveal_strlit("shadow");
    reveal_strlit("shamrock");
    reveal_strlit("showgirl");
    reveal_strlit("skullcap");
    reveal_strlit("skydive");
    reveal_strlit("slingshot");
    reveal_strlit("slowdown");
    assert forall|i: int| 176 <= i < 192 implies is_plain_word(#[trigger] EVEN[i]@) by {
        if i == 176 {
        } else if i == 177 {
        } else if i == 178 {
        } else if i == 179 {
        } else if i == 180 {
        } else if i == 181 {
        } else if i == 182 {
        } else if i == 183 {
        } else if i == 184 {
        } else if i == 185 {
        } else if i == 186 {
        } else if i == 187 {
        } else if i == 188 {
        } else if i == 189 {
        } else if i == 190 {
        } else if i == 191 {
        }
    }
    assert forall|i: int| 176 <= i < 192 implies #[trigger] sort_key(EVEN[i]@) < sort_key(
        EVEN[i + 1]@,
    ) by {
        if i == 176 {
        } else if i == 177 {
        } else if i == 178 {
        } else if i == 179 {
        } else if i == 180 {
        } else if i == 181 {
        } else if i == 182 {
        } else if i == 183 {
        } else if i == 184 {
        } else if i == 185 {
        } else if i == 186 {
        } else if i == 187 {
        } else if i == 188 {
        } else if i == 189 {
        } else if i == 190 {
        } else if i == 191 {
        }
    }
}

/// The even words at 192 to 207 are plain, and their sort keys increase
/// from each to the next in dictionary order.
proof fn lemma_even_192_207()
    ensures
        forall|i: int| 192 <= i < 208 ==> is_plain_word(#[trigger] EVEN[i]@),
        forall|i: int|
            192 <= i < 208 ==> #[trigger] sort_key(EVEN[i]@) < sort_key(EVEN[i + 1]@),
{
    reveal_strlit("slowdown");
    reveal_strlit("snapline");
    reveal_strlit("snapshot");
    reveal_strlit("snowcap");
    reveal_strlit("snowslide");
    reveal_strlit("solo");
    reveal_strlit("southward");
    reveal_strlit("soybean");
    reveal_strlit("spaniel");
    reveal_strlit("spearhead");
    reveal_strlit("spellbind");
    reveal_strlit("spheroid");
    reveal_strlit("spigot");
    reveal_strlit("spindle");
    reveal_strlit("spyglass");
    reveal_strlit("stagehand");
    reveal_strlit("stagnate");
    assert forall|i: int| 192 <= i < 208 implies is_plain_word(#[trigger] EVEN[i]@) by {
        if i == 192 {
        } else if i == 193 {
        } else if i == 194 {
        } else if i == 195 {
        } else if i == 196 {
        } else if i == 197 {
        } else if i == 198 {
        } else if i == 199 {
        } else if i == 200 {
        } else if i == 201 {
        } else if i == 202 {
        } else if i == 203 {
        } else if i == 204 {
        } else if i == 205 {
        } else if i == 206 {
        } else if i == 207 {
        }
    }
    assert forall|i: int| 192 <= i < 208 implies #[trigger] sort_key(EVEN[i]@) < sort_key(
        EVEN[i + 1]@,
    ) by {
        if i == 192 {
        } else if i == 193 {
        } else if i == 194 {
        } else if i == 195 {
        } else if i == 196 {
        } else if i == 197 {
        } else if i == 198 {
        } else if i == 199 {
        } else if i == 200 {
        } else if i == 201 {
        } else if i == 202 {
        } else if i == 203 {
        } else if i == 204 {
        } else if i == 205 {
        } else if i == 206 {
        } else if i == 207 {
        }
    }
}

/// The even words at 208 to 223 are plain, and their sort keys increase
/// from each to the next in dictionary order.
proof fn lemma_even_208_223()
    ensures
        forall|i: int| 208 <= i < 224 ==> is_plain_word(#[trigger] EVEN[i]@),
        forall|i: int|
            208 <= i < 224 ==> #[trigger] sort_key(EVEN[i]@) < sort_key(EVEN[i + 1]@),
{
    reveal_strlit("stagnate");
    reveal_strlit("stairway");
    reveal_strlit("standard");
    reveal_strlit("stapler");
    reveal_strlit("steamship");
    reveal_strlit("sterling");
    reveal_strlit("stockman");
    reveal_strlit("stopwatch");
    reveal_strlit("stormy");
    reveal_strlit("sugar");
    reveal_strlit("surmount");
    reveal_strlit("suspense");
    reveal_strlit("sweatband");
    reveal_strlit("swelter");
    reveal_strlit("tactics");
    reveal_strlit("talon");
    reveal_strlit("tapeworm");
    assert forall|i: int| 208 <= i < 224 implies is_plain_word(#[trigger] EVEN[i]@) by {
        if i == 208 {
        } else if i == 209 {
        } else if i == 210 {
        } else if i == 211 {
        } else if i == 212 {
        } else if i == 213 {
        } else if i == 214 {
        } else if i == 215 {
        } else if i == 216 {
        } else if i == 217 {
        } else if i == 218 {
        } else if i == 219 {
        } else if i == 220 {
        } else if i == 221 {
        } else if i == 222 {
        } else if i == 223 {
        }
    }
    assert forall|i: int| 208 <= i < 224 implies #[trigger] sort_key(EVEN[i]@) < sort_key(
        EVEN[i + 1]@,
    ) by {
        if i == 208 {
        } else if i == 209 {
        } else if i == 210 {
        } else if i == 211 {
        } else if i == 212 {
        } else if i == 213 {
        } else if i == 214 {
        } else if i == 215 {
        } else if i == 216 {
        } else if i == 217 {
        } else if i == 218 {
        } else if i == 219 {
        } else if i == 220 {
        } else if i == 221 {
        } else if i == 222 {
        } else if i == 223 {
        }
    }
}

/// The even words at 224 to 239 are plain, and their sort keys increase
/// from each to the next in dictionary order.
proof fn lemma_even_224_239()
    ensures
        forall|i: int| 224 <= i < 240 ==> is_plain_word(#[trigger] EVEN[i]@),
        forall|i: int|
            224 <= i < 240 ==> #[trigger] sort_key(EVEN[i]@) < sort_key(EVEN[i + 1]@),
{
    reveal_strlit("tapeworm");
    reveal_strlit("tempest");
    reveal_strlit("tiger");
    reveal_strlit("tissue");
    reveal_strlit("tonic");
    reveal_strlit("topmost");
    reveal_strlit("tracker");
    reveal_strlit("transit");
    reveal_strlit("trauma");
    reveal_strlit("treadmill");
    reveal_strlit("Trojan");
    reveal_strlit("trouble");
    reveal_strlit("tumor");
    reveal_strlit("tunnel");
    reveal_strlit("tycoon");
    reveal_strlit("uncut");
    reveal_strlit("unearth");
    assert forall|i: int| 224 <= i < 240 implies is_plain_word(#[trigger] EVEN[i]@) by {
        if i == 224 {
        } else if i == 225 {
        } else if i == 226 {
        } else if i == 227 {
        } else if i == 228 {
        } else if i == 229 {
        } else if i == 230 {
        } else if i == 231 {
        } else if i == 232 {
        } else if i == 233 {
        } else if i == 234 {
        } else if i == 235 {
        } else if i == 236 {
        } else if i == 237 {
        } else if i == 238 {
        } else if i == 239 {
        }
    }
    assert forall|i: int| 224 <= i < 240 implies #[trigger] sort_key(EVEN[i]@) < sort_key(
        EVEN[i + 1]@,
    ) by {
        if i == 224 {
        } else if i == 225 {
        } else if i == 226 {
        } else if i == 227 {
        } else if i == 228 {
        } else if i == 229 {
        } else if i == 230 {
        } else if i == 231 {
        } else if i == 232 {
        } else if i == 233 {
        } else if i == 234 {
        } else if i == 235 {
        } else if i == 236 {
        } else if i == 237 {
        } else if i == 238 {
        } else if i == 239 {
        }
    }
}

/// The even words at 240 to 255 are plain, and their sort keys increase
/// from each to the next in dictionary order.
proof fn lemma_even_240_255()
    ensures
        forall|i: int| 240 <= i < 256 ==> is_plain_word(#[trigger] EVEN[i]@),
        forall|i: int|
            240 <= i < 255 ==> #[trigger] sort_key(EVEN[i]@) < sort_key(EVEN[i + 1]@),
{
    reveal_strlit("unearth");
    reveal_strlit("unwind");
    reveal_strlit("uproot");
    reveal_strlit("upset");
    reveal_strlit("upshot");
    reveal_strlit("vapor");
    reveal_strlit("village");
    reveal_strlit("virus");
    reveal_strlit("Vulcan");
    reveal_strlit("waffle");
    reveal_strlit("wallet");
    reveal_strlit("watchword");
    reveal_strlit("wayside");
    reveal_strlit("willow");
    reveal_strlit("woodlark");
    reveal_strlit("Zulu");
    assert forall|i: int| 240 <= i < 256 implies is_plain_word(#[trigger] EVEN[i]@) by {
        if i == 240 {
        } else if i == 241 {
        } else if i == 242 {
        } else if i == 243 {
        } else if i == 244 {
        } else if i == 245 {
        } else if i == 246 {
        } else if i == 247 {
        } else if i == 248 {
        } else if i == 249 {
        } else if i == 250 {
        } else if i == 251 {
        } else if i == 252 {
        } else if i == 253 {
        } else if i == 254 {
        } else if i == 255 {
        }
    }
    assert forall|i: int| 240 <= i < 255 implies #[trigger] sort_key(EVEN[i]@) < sort_key(
        EVEN[i + 1]@,
    ) by {
        if i == 240 {
        } else if i == 241 {
        } else if i == 242 {
        } else if i == 243 {
        } else if i == 244 {
        } else if i == 245 {
        } else if i == 246 {
        } else if i == 247 {
        } else if i == 248 {
        } else if i == 249 {
        } else if i == 250 {
        } else if i == 251 {
        } else if i == 252 {
        } else if i == 253 {
        } else if i == 254 {
        }
    }
}

/// The odd words at 0 to 15 are plain, and their sort keys increase
/// from each to the next in dictionary order.
proof fn lemma_odd_0_15()
    ensures
        forall|i: int| 0 <= i < 16 ==> is_plain_word(#[trigger] ODD[i]@),
        forall|i: int|
            0 <= i < 16 ==> #[trigger] sort_key(ODD[odd_rank(i)]@) < sort_key(
                ODD[odd_rank(i + 1)]@,
            ),
{
    reveal_strlit("adroitness");
    reveal_strlit("adviser");
    reveal_strlit("aftermath");
    reveal_strlit("aggregate");
    reveal_strlit("alkali");
    reveal_strlit("almighty");
    reveal_strlit("amulet");
    reveal_strlit("amusement");
    reveal_strlit("antenna");
    reveal_strlit("applicant");
    reveal_strlit("Apollo");
    reveal_strlit("armistice");
    reveal_strlit("article");
    reveal_strlit("asteroid");
    reveal_strlit("Atlantic");
    reveal_strlit("atmosphere");
    reveal_strlit("autopsy");
    assert forall|i: int| 0 <= i < 16 implies is_plain_word(#[trigger] ODD[i]@) by {
        if i == 0 {
        } else if i == 1 {
        } else if i == 2 {
        } else if i == 3 {
        } else if i == 4 {
        } else if i == 5 {
        } else if i == 6 {
        } else if i == 7 {
        } else if i == 8 {
        } else if i == 9 {
        } else if i == 10 {
        } else if i == 11 {
        } else if i == 12 {
        } else if i == 13 {
        } else if i == 14 {
        } else if i == 15 {
        }
    }
    assert forall|i: int| 0 <= i < 16 implies #[trigger] sort_key(ODD[odd_rank(i)]@) < sort_key(
        ODD[odd_rank(i + 1)]@,
    ) by {
        if i == 0 {
        } else if i == 1 {
        } else if i == 2 {
        } else if i == 3 {
        } else if i == 4 {
        } else if i == 5 {
        } else if i == 6 {
        } else if i == 7 {
        } else if i == 8 {
        } else if i == 9 {
        } else if i == 10 {
        } else if i == 11 {
        } else if i == 12 {
        } else if i == 13 {
        } else if i == 14 {
        } else if i == 15 {
        }
    }
}

/// The odd words at 16 to 31 are plain, and their sort keys increase
/// from each to the next in dictionary order.
proof fn lemma_odd_16_31()
    ensures
        forall|i: int| 16 <= i < 32 ==> is_plain_word(#[trigger] ODD[i]@),
        forall|i: int|
            16 <= i < 32 ==> #[trigger] sort_key(ODD[odd_rank(i)]@) < sort_key(
                ODD[odd_rank(i + 1)]@,
            ),
{
    reveal_strlit("autopsy");
    reveal_strlit("Babylon");
    reveal_strlit("backwater");
    reveal_strlit("barbecue");
    reveal_strlit("belowground");
    reveal_strlit("bifocals");
    reveal_strlit("bodyguard");
    reveal_strlit("bookseller");
    reveal_strlit("borderline");
    reveal_strlit("bottomless");
    reveal_strlit("Bradbury");
    reveal_strlit("bravado");
    reveal_strlit("Brazilian");
    reveal_strlit("breakaway");
    reveal_strlit("Burlington");
    reveal_strlit("businessman");
    reveal_strlit("butterfat");
    assert forall|i: int| 16 <= i < 32 implies is_plain_word(#[trigger] ODD[i]@) by {
        if i == 16 {
        } else if i == 17 {
        } else if i == 18 {
        } else if i == 19 {
        } else if i == 20 {
        } else if i == 21 {
        } else if i == 22 {
        } else if i == 23 {
        } else if i == 24 {
        } else if i == 25 {
        } else if i == 26 {
        } else if i == 27 {
        } else if i == 28 {
        } else if i == 29 {
        } else if i == 30 {
        } else if i == 31 {
        }
    }
    assert forall|i: int| 16 <= i < 32 implies #[trigger] sort_key(ODD[odd_rank(i)]@) < sort_key(
        ODD[odd_rank(i + 1)]@,
    ) by {
        if i == 16 {
        } else if i == 17 {
        } else if i == 18 {
        } else if i == 19 {
        } else if i == 20 {
        } else if i == 21 {
        } else if i == 22 {
        } else if i == 23 {
        } else if i == 24 {
        } else if i == 25 {
        } else if i == 26 {
        } else if i == 27 {
        } else if i == 28 {
        } else if i == 29 {
        } else if i == 30 {
        } else if i == 31 {
        }
    }
}

/// The odd words at 32 to 47 are plain, and their sort keys increase
/// from each to the next in dictionary order.
proof fn lemma_odd_32_47()
    ensures
        forall|i: int| 32 <= i < 48 ==> is_plain_word(#[trigger] ODD[i]@),
        forall|i: int|
            32 <= i < 48 ==> #[trigger] sort_key(ODD[odd_rank(i)]@) < sort_key(
                ODD[odd_rank(i + 1)]@,
            ),
{
    reveal_strlit("butterfat");
    reveal_strlit("Camelot");
    reveal_strlit("candidate");
    reveal_strlit("cannonball");
    reveal_strlit("Capricorn");
    reveal_strlit("caravan");
    reveal_strlit("caretaker");
    reveal_strlit("celebrate");
    reveal_strlit("cellulose");
    reveal_strlit("certify");
    reveal_strlit("chambermaid");
    reveal_strlit("Cherokee");
    reveal_strlit("Chicago");
    reveal_strlit("clergyman");
    reveal_strlit("coherence");
    reveal_strlit("combustion");
    reveal_strlit("commando");
    assert forall|i: int| 32 <= i < 48 implies is_plain_word(#[trigger] ODD[i]@) by {
        if i == 32 {
        } else if i == 33 {
        } else if i == 34 {
        } else if i == 35 {
        } else if i == 36 {
        } else if i == 37 {
        } else if i == 38 {
        } else if i == 39 {
        } else if i == 40 {
        } else if i == 41 {
        } else if i == 42 {
        } else if i == 43 {
        } else if i == 44 {
        } else if i == 45 {
        } else if i == 46 {
        } else if i == 47 {
        }
    }
    assert forall|i: int| 32 <= i < 48 implies #[trigger] sort_key(ODD[odd_rank(i)]@) < sort_key(
        ODD[odd_rank(i + 1)]@,
    ) by {
        if i == 32 {
        } else if i == 33 {
        } else if i == 34 {
        } else if i == 35 {
        } else if i == 36 {
        } else if i == 37 {
        } else if i == 38 {
        } else if i == 39 {
        } else if i == 40 {
        } else if i == 41 {
        } else if i == 42 {
        } else if i == 43 {
        } else if i == 44 {
        } else if i == 45 {
        } else if i == 46 {
        } else if i == 47 {
        }
    }
}

/// The odd words at 48 to 63 are plain, and their sort keys increase
/// from each to the next in dictionary order.
proof fn lemma_odd_48_63()
    ensures
        forall|i: int| 48 <= i < 64 ==> is_plain_word(#[trigger] ODD[i]@),
        forall|i: int|
            48 <= i < 64 ==> #[trigger] sort_key(ODD[odd_rank(i)]@) < sort_key(
                ODD[odd_rank(i + 1)]@,
            ),
{
    reveal_strlit("commando");
    reveal_strlit("company");
    reveal_strlit("component");
    reveal_strlit("concurrent");
    reveal_strlit("confidence");
    reveal_strlit("conformist");
    reveal_strlit("congregate");
    reveal_strlit("consensus");
    reveal_strlit("consulting");
    reveal_strlit("corporate");
    reveal_strlit("corrosion");
    reveal_strlit("councilman");
    reveal_strlit("crossover");
    reveal_strlit("crucifix");
    reveal_strlit("cumbersome");
    reveal_strlit("customer");
    reveal_strlit("Dakota");
    assert forall|i: int| 48 <= i < 64 implies is_plain_word(#[trigger] ODD[i]@) by {
        if i == 48 {
        } else if i == 49 {
        } else if i == 50 {
        } else if i == 51 {
        } else if i == 52 {
        } else if i == 53 {
        } else if i == 54 {
        } else if i == 55 {
        } else if i == 56 {
        } else if i == 57 {
        } else if i == 58 {
        } else if i == 59 {
        } else if i == 60 {
        } else if i == 61 {
        } else if i == 62 {
        } else if i == 63 {
        }
    }
    assert forall|i: int| 48 <= i < 64 implies #[trigger] sort_key(ODD[odd_rank(i)]@) < sort_key(
        ODD[odd_rank(i + 1)]@,
    ) by {
        if i == 48 {
        } else if i == 49 {
        } else if i == 50 {
        } else if i == 51 {
        } else if i == 52 {
        } else if i == 53 {
        } else if i == 54 {
        } else if i == 55 {
        } else if i == 56 {
        } else if i == 57 {
        } else if i == 58 {
        } else if i == 59 {
        } else if i == 60 {
        } else if i == 61 {
        } else if i == 62 {
        } else if i == 63 {
        }
    }
}

/// The odd words at 64 to 79 are plain, and their sort keys increase
/// from each to the next in dictionary order.
proof fn lemma_odd_64_79()
    ensures
        forall|i: int| 64 <= i < 80 ==> is_plain_word(#[trigger] ODD[i]@),
        forall|i: int|
            64 <= i < 80 ==> #[trigger] sort_key(ODD[odd_rank(i)]@) < sort_key(
                ODD[odd_rank(i + 1)]@,
            ),
{
    reveal_strlit("Dakota");
    reveal_strlit("decadence");
    reveal_strlit("December");
    reveal_strlit("decimal");
    reveal_strlit("designing");
    reveal_strlit("detector");
    reveal_strlit("detergent");
    reveal_strlit("determine");
    reveal_strlit("dictator");
    reveal_strlit("dinosaur");
    reveal_strlit("direction");
    reveal_strlit("disable");
    reveal_strlit("disbelief");
    reveal_strlit("disruptive");
    reveal_strlit("distortion");
    reveal_strlit("document");
    reveal_strlit("embezzle");
    assert forall|i: int| 64 <= i < 80 implies is_plain_word(#[trigger] ODD[i]@) by {
        if i == 64 {
        } else if i == 65 {
        } else if i == 66 {
        } else if i == 67 {
        } else if i == 68 {
        } else if i == 69 {
        } else if i == 70 {
        } else if i == 71 {
        } else if i == 72 {
        } else if i == 73 {
        } else if i == 74 {
        } else if i == 75 {
        } else if i == 76 {
        } else if i == 77 {
        } else if i == 78 {
        } else if i == 79 {
        }
    }
    assert forall|i: int| 64 <= i < 80 implies #[trigger] sort_key(ODD[odd_rank(i)]@) < sort_key(
        ODD[odd_rank(i + 1)]@,
    ) by {
        if i == 64 {
        } else if i == 65 {
        } else if i == 66 {
        } else if i == 67 {
        } else if i == 68 {
        } else if i == 69 {
        } else if i == 70 {
        } else if i == 71 {
        } else if i == 72 {
        } else if i == 73 {
        } else if i == 74 {
        } else if i == 75 {
        } else if i == 76 {
        } else if i == 77 {
        } else if i == 78 {
        } else if i == 79 {
        }
    }
}

/// The odd words at 80 to 95 are plain, and their sort keys increase
/// from each to the next in dictionary order.
proof fn lemma_odd_80_95()
    ensures
        forall|i: int| 80 <= i < 96 ==> is_plain_word(#[trigger] ODD[i]@),
        forall|i: int|
            80 <= i < 96 ==> #[trigger] sort_key(ODD[odd_rank(i)]@) < sort_key(
                ODD[odd_rank(i + 1)]@,
            ),
{
    reveal_strlit("embezzle");
    reveal_strlit("enchanting");
    reveal_strlit("enrollment");
    reveal_strlit("enterprise");
    reveal_strlit("equation");
    reveal_strlit("equipment");
    reveal_strlit("escapade");
    reveal_strlit("Eskimo");
    reveal_strlit("everyday");
    reveal_strlit("examine");
    reveal_strlit("existence");
    reveal_strlit("exodus");
    reveal_strlit("fascinate");
    reveal_strlit("filament");
    reveal_strlit("finicky");
    reveal_strlit("forever");
    reveal_strlit("fortitude");
    assert forall|i: int| 80 <= i < 96 implies is_plain_word(#[trigger] ODD[i]@) by {
        if i == 80 {
        } else if i == 81 {
        } else if i == 82 {
        } else if i == 83 {
        } else if i == 84 {
        } else if i == 85 {
        } else if i == 86 {
        } else if i == 87 {
        } else if i == 88 {
        } else if i == 89 {
        } else if i == 90 {
        } else if i == 91 {
        } else if i == 92 {
        } else if i == 93 {
        } else if i == 94 {
        } else if i == 95 {
        }
    }
    assert forall|i: int| 80 <= i < 96 implies #[trigger] sort_key(ODD[odd_rank(i)]@) < sort_key(
        ODD[odd_rank(i + 1)]@,
    ) by {
        if i == 80 {
        } else if i == 81 {
        } else if i == 82 {
        } else if i == 83 {
        } else if i == 84 {
        } else if i == 85 {
        } else if i == 86 {
        } else if i == 87 {
        } else if i == 88 {
        } else if i == 89 {
        } else if i == 90 {
        } else if i == 91 {
        } else if i == 92 {
        } else if i == 93 {
        } else if i == 94 {
        } else if i == 95 {
        }
    }
}

/// The odd words at 96 to 111 are plain, and their sort keys increase
/// from each to the next in dictionary order.
proof fn lemma_odd_96_111()
    ensures
        forall|i: int| 96 <= i < 112 ==> is_plain_word(#[trigger] ODD[i]@),
        forall|i: int|
            96 <= i < 112 ==> #[trigger] sort_key(ODD[odd_rank(i)]@) < sort_key(
                ODD[odd_rank(i + 1)]@,
            ),
{
    reveal_strlit("fortitude");
    reveal_strlit("frequency");
    reveal_strlit("gadgetry");
    reveal_strlit("Galveston");
    reveal_strlit("getaway");
    reveal_strlit("glossary");
    reveal_strlit("gossamer");
    reveal_strlit("graduate");
    reveal_strlit("gravity");
    reveal_strlit("guitarist");
    reveal_strlit("hamburger");
    reveal_strlit("Hamilton");
    reveal_strlit("handiwork");
    reveal_strlit("hazardous");
    reveal_strlit("headwaters");
    reveal_strlit("hemisphere");
    reveal_strlit("hesitate");
    assert forall|i: int| 96 <= i < 112 implies is_plain_word(#[trigger] ODD[i]@) by {
        if i == 96 {
        } else if i == 97 {
        } else if i == 98 {
        } else if i == 99 {
        } else if i == 100 {
        } else if i == 101 {
        } else if i == 102 {
        } else if i == 103 {
        } else if i == 104 {
        } else if i == 105 {
        } else if i == 106 {
        } else if i == 107 {
        } else if i == 108 {
        } else if i == 109 {
        } else if i == 110 {
        } else if i == 111 {
        }
    }
    assert forall|i: int| 96 <= i < 112 implies #[trigger] sort_key(ODD[odd_rank(i)]@) < sort_key(
        ODD[odd_rank(i + 1)]@,
    ) by {
        if i == 96 {
        } else if i == 97 {
        } else if i == 98 {
        } else if i == 99 {
        } else if i == 100 {
        } else if i == 101 {
        } else if i == 102 {
        } else if i == 103 {
        } else if i == 104 {
        } else if i == 105 {
        } else if i == 106 {
        } else if i == 107 {
        } else if i == 108 {
        } else if i == 109 {
        } else if i == 110 {
        } else if i == 111 {
        }
    }
}

/// The odd words at 112 to 127 are plain, and their sort keys increase
/// from each to the next in dictionary order.
proof fn lemma_odd_112_127()
    ensures
        forall|i: int| 112 <= i < 128 ==> is_plain_word(#[trigger] ODD[i]@),
        forall|i: int|
            112 <= i < 128 ==> #[trigger] sort_key(ODD[odd_rank(i)]@) < sort_key(
                ODD[odd_rank(i + 1)]@,
            ),
{
    reveal_strlit("hesitate");
    reveal_strlit("hideaway");
    reveal_strlit("holiness");
    reveal_strlit("hurricane");
    reveal_strlit("hydraulic");
    reveal_strlit("impartial");
    reveal_strlit("impetus");
    reveal_strlit("inception");
    reveal_strlit("indigo");
    reveal_strlit("inertia");
    reveal_strlit("infancy");
    reveal_strlit("inferno");
    reveal_strlit("informant");
    reveal_strlit("insincere");
    reveal_strlit("insurgent");
    reveal_strlit("integrate");
    reveal_strlit("intention");
    assert forall|i: int| 112 <= i < 128 implies is_plain_word(#[trigger] ODD[i]@) by {
        if i == 112 {
        } else if i == 113 {
        } else if i == 114 {
        } else if i == 115 {
        } else if i == 116 {
        } else if i == 117 {
        } else if i == 118 {
        } else if i == 119 {
        } else if i == 120 {
        } else if i == 121 {
        } else if i == 122 {
        } else if i == 123 {
        } else if i == 124 {
        } else if i == 125 {
        } else if i == 126 {
        } else if i == 127 {
        }
    }
    assert forall|i: int| 112 <= i < 128 implies #[trigger] sort_key(ODD[odd_rank(i)]@) < sort_key(
        ODD[odd_rank(i + 1)]@,
    ) by {
        if i == 112 {
        } else if i == 113 {
        } else if i == 114 {
        } else if i == 115 {
        } else if i == 116 {
        } else if i == 117 {
        } else if i == 118 {
        } else if i == 119 {
        } else if i == 120 {
        } else if i == 121 {
        } else if i == 122 {
        } else if i == 123 {
        } else if i == 124 {
        } else if i == 125 {
        } else if i == 126 {
        } else if i == 127 {
        }
    }
}

/// The odd words at 128 to 143 are plain, and their sort keys increase
/// from each to the next in dictionary order.
proof fn lemma_odd_128_143()
    ensures
        forall|i: int| 128 <= i < 144 ==> is_plain_word(#[trigger] ODD[i]@),
        forall|i: int|
            128 <= i < 144 ==> #[trigger] sort_key(ODD[odd_rank(i)]@) < sort_key(
                ODD[odd_rank(i + 1)]@,
            ),
{
    reveal_strlit("intention");
    reveal_strlit("inventive");
    reveal_strlit("Istanbul");
    reveal_strlit("Jamaica");
    reveal_strlit("Jupiter");
    reveal_strlit("leprosy");
    reveal_strlit("letterhead");
    reveal_strlit("liberty");
    reveal_strlit("maritime");
    reveal_strlit("matchmaker");
    reveal_strlit("maverick");
    reveal_strlit("Medusa");
    reveal_strlit("megaton");
    reveal_strlit("microscope");
    reveal_strlit("microwave");
    reveal_strlit("midsummer");
    reveal_strlit("millionaire");
    assert forall|i: int| 128 <= i < 144 implies is_plain_word(#[trigger] ODD[i]@) by {
        if i == 128 {
        } else if i == 129 {
        } else if i == 130 {
        } else if i == 131 {
        } else if i == 132 {
        } else if i == 133 {
        } else if i == 134 {
        } else if i == 135 {
        } else if i == 136 {
        } else if i == 137 {
        } else if i == 138 {
        } else if i == 139 {
        } else if i == 140 {
        } else if i == 141 {
        } else if i == 142 {
        } else if i == 143 {
        }
    }
    assert forall|i: int| 128 <= i < 144 implies #[trigger] sort_key(ODD[odd_rank(i)]@) < sort_key(
        ODD[odd_rank(i + 1)]@,
    ) by {
        if i == 128 {
        } else if i == 129 {
        } else if i == 130 {
        } else if i == 131 {
        } else if i == 132 {
        } else if i == 133 {
        } else if i == 134 {
        } else if i == 135 {
        } else if i == 136 {
        } else if i == 137 {
        } else if i == 138 {
        } else if i == 139 {
        } else if i == 140 {
        } else if i == 141 {
        } else if i == 142 {
        } else if i == 143 {
        }
    }
}

/// The odd words at 144 to 159 are plain, and their sort keys increase
/// from each to the next in dictionary order.
proof fn lemma_odd_144_159()
    ensures
        forall|i: int| 144 <= i < 160 ==> is_plain_word(#[trigger] ODD[i]@),
        forall|i: int|
            144 <= i < 160 ==> #[trigger] sort_key(ODD[odd_rank(i)]@) < sort_key(
                ODD[odd_rank(i + 1)]@,
            ),
{
    reveal_strlit("millionaire");
    reveal_strlit("miracle");
    reveal_strlit("misnomer");
    reveal_strlit("molasses");
    reveal_strlit("molecule");
    reveal_strlit("Montana");
    reveal_strlit("monument");
    reveal_strlit("mosquito");
    reveal_strlit("narrative");
    reveal_strlit("nebula");
    reveal_strlit("newsletter");
    reveal_strlit("Norwegian");
    reveal_strlit("October");
    reveal_strlit("Ohio");
    reveal_strlit("onlooker");
    reveal_strlit("opulent");
    reveal_strlit("Orlando");
    assert forall|i: int| 144 <= i < 160 implies is_plain_word(#[trigger] ODD[i]@) by {
        if i == 144 {
        } else if i == 145 {
        } else if i == 146 {
        } else if i == 147 {
        } else if i == 148 {
        } else if i == 149 {
        } else if i == 150 {
        } else if i == 151 {
        } else if i == 152 {
        } else if i == 153 {
        } else if i == 154 {
        } else if i == 155 {
        } else if i == 156 {
        } else if i == 157 {
        } else if i == 158 {
        } else if i == 159 {
        }
    }
    assert forall|i: int| 144 <= i < 160 implies #[trigger] sort_key(ODD[odd_rank(i)]@) < sort_key(
        ODD[odd_rank(i + 1)]@,
    ) by {
        if i == 144 {
        } else if i == 145 {
        } else if i == 146 {
        } else if i == 147 {
        } else if i == 148 {
        } else if i == 149 {
        } else if i == 150 {
        } else if i == 151 {
        } else if i == 152 {
        } else if i == 153 {
        } else if i == 154 {
        } else if i == 155 {
        } else if i == 156 {
        } else if i == 157 {
        } else if i == 158 {
        } else if i == 159 {
        }
    }
}

/// The odd words at 160 to 175 are plain, and their sort keys increase
/// from each to the next in dictionary order.
proof fn lemma_odd_160_175()
    ensures
        forall|i: int| 160 <= i < 176 ==> is_plain_word(#[trigger] ODD[i]@),
        forall|i: int|
            160 <= i < 176 ==> #[trigger] sort_key(ODD[odd_rank(i)]@) < sort_key(
                ODD[odd_rank(i + 1)]@,
            ),
{
    reveal_strlit("Orlando");
    reveal_strlit("outfielder");
    reveal_strlit("Pacific");
    reveal_strlit("pandemic");
    reveal_strlit("Pandora");
    reveal_strlit("paperweight");
    reveal_strlit("paragon");
    reveal_strlit("paragraph");
    reveal_strlit("paramount");
    reveal_strlit("passenger");
    reveal_strlit("pedigree");
    reveal_strlit("Pegasus");
    reveal_strlit("penetrate");
    reveal_strlit("perceptive");
    reveal_strlit("performance");
    reveal_strlit("pharmacy");
    reveal_strlit("phonetic");
    assert forall|i: int| 160 <= i < 176 implies is_plain_word(#[trigger] ODD[i]@) by {
        if i == 160 {
        } else if i == 161 {
        } else if i == 162 {
        } else if i == 163 {
        } else if i == 164 {
        } else if i == 165 {
        } else if i == 166 {
        } else if i == 167 {
        } else if i == 168 {
        } else if i == 169 {
        } else if i == 170 {
        } else if i == 171 {
        } else if i == 172 {
        } else if i == 173 {
        } else if i == 174 {
        } else if i == 175 {
        }
    }
    assert forall|i: int| 160 <= i < 176 implies #[trigger] sort_key(ODD[odd_rank(i)]@) < sort_key(
        ODD[odd_rank(i + 1)]@,
    ) by {
        if i == 160 {
        } else if i == 161 {
        } else if i == 162 {
        } else if i == 163 {
        } else if i == 164 {
        } else if i == 165 {
        } else if i == 166 {
        } else if i == 167 {
        } else if i == 168 {
        } else if i == 169 {
        } else if i == 170 {
        } else if i == 171 {
        } else if i == 172 {
        } else if i == 173 {
        } else if i == 174 {
        } else if i == 175 {
        }
    }
}

/// The odd words at 176 to 191 are plain, and their sort keys increase
/// from each to the next in dictionary order.
proof fn lemma_odd_176_191()
    ensures
        forall|i: int| 176 <= i < 192 ==> is_plain_word(#[trigger] ODD[i]@),
        forall|i: int|
            176 <= i < 192 ==> #[trigger] sort_key(ODD[odd_rank(i)]@) < sort_key(
                ODD[odd_rank(i + 1)]@,
            ),
{
    reveal_strlit("phonetic");
    reveal_strlit("photograph");
    reveal_strlit("pioneer");
    reveal_strlit("pocketful");
    reveal_strlit("politeness");
    reveal_strlit("positive");
    reveal_strlit("potato");
    reveal_strlit("processor");
    reveal_strlit("provincial");
    reveal_strlit("proximate");
    reveal_strlit("puberty");
    reveal_strlit("publisher");
    reveal_strlit("pyramid");
    reveal_strlit("quantity");
    reveal_strlit("racketeer");
    reveal_strlit("rebellion");
    reveal_strlit("recipe");
    assert forall|i: int| 176 <= i < 192 implies is_plain_word(#[trigger] ODD[i]@) by {
        if i == 176 {
        } else if i == 177 {
        } else if i == 178 {
        } else if i == 179 {
        } else if i == 180 {
        } else if i == 181 {
        } else if i == 182 {
        } else if i == 183 {
        } else if i == 184 {
        } else if i == 185 {
        } else if i == 186 {
        } else if i == 187 {
        } else if i == 188 {
        } else if i == 189 {
        } else if i == 190 {
        } else if i == 191 {
        }
    }
    assert forall|i: int| 176 <= i < 192 implies #[trigger] sort_key(ODD[odd_rank(i)]@) < sort_key(
        ODD[odd_rank(i + 1)]@,
    ) by {
        if i == 176 {
        } else if i == 177 {
        } else if i == 178 {
        } else if i == 179 {
        } else if i == 180 {
        } else if i == 181 {
        } else if i == 182 {
        } else if i == 183 {
        } else if i == 184 {
        } else if i == 185 {
        } else if i == 186 {
        } else if i == 187 {
        } else if i == 188 {
        } else if i == 189 {
        } else if i == 190 {
        } else if i == 191 {
        }
    }
}

/// The odd words at 192 to 207 are plain, and their sort keys increase
/// from each to the next in dictionary order.
proof fn lemma_odd_192_207()
    ensures
        forall|i: int| 192 <= i < 208 ==> is_plain_word(#[trigger] ODD[i]@),
        forall|i: int|
            192 <= i < 208 ==> #[trigger] sort_key(ODD[odd_rank(i)]@) < sort_key(
                ODD[odd_rank(i + 1)]@,
            ),
{
    reveal_strlit("recipe");
    reveal_strlit("recover");
    reveal_strlit("repellent");
    reveal_strlit("replica");
    reveal_strlit("reproduce");
    reveal_strlit("resistor");
    reveal_strlit("responsive");
    reveal_strlit("retraction");
    reveal_strlit("retrieval");
    reveal_strlit("retrospect");
    reveal_strlit("revenue");
    reveal_strlit("revival");
    reveal_strlit("revolver");
    reveal_strlit("sandalwood");
    reveal_strlit("sardonic");
    reveal_strlit("Saturday");
    reveal_strlit("savagery");
    assert forall|i: int| 192 <= i < 208 implies is_plain_word(#[trigger] ODD[i]@) by {
        if i == 192 {
        } else if i == 193 {
        } else if i == 194 {
        } else if i == 195 {
        } else if i == 196 {
        } else if i == 197 {
        } else if i == 198 {
        } else if i == 199 {
        } else if i == 200 {
        } else if i == 201 {
        } else if i == 202 {
        } else if i == 203 {
        } else if i == 204 {
        } else if i == 205 {
        } else if i == 206 {
        } else if i == 207 {
        }
    }
    assert forall|i: int| 192 <= i < 208 implies #[trigger] sort_key(ODD[odd_rank(i)]@) < sort_key(
        ODD[odd_rank(i + 1)]@,
    ) by {
        if i == 192 {
        } else if i == 193 {
        } else if i == 194 {
        } else if i == 195 {
        } else if i == 196 {
        } else if i == 197 {
        } else if i == 198 {
        } else if i == 199 {
        } else if i == 200 {
        } else if i == 201 {
        } else if i == 202 {
        } else if i == 203 {
        } else if i == 204 {
        } else if i == 205 {
        } else if i == 206 {
        } else if i == 207 {
        }
    }
}

/// The odd words at 208 to 223 are plain, and their sort keys increase
/// from each to the next in dictionary order.
proof fn lemma_odd_208_223()
    ensures
        forall|i: int| 208 <= i < 224 ==> is_plain_word(#[trigger] ODD[i]@),
        forall|i: int|
            208 <= i < 224 ==> #[trigger] sort_key(ODD[odd_rank(i)]@) < sort_key(
                ODD[odd_rank(i + 1)]@,
            ),
{
    reveal_strlit("savagery");
    reveal_strlit("scavenger");
    reveal_strlit("sensation");
    reveal_strlit("sociable");
    reveal_strlit("souvenir");
    reveal_strlit("specialist");
    reveal_strlit("speculate");
    reveal_strlit("stethoscope");
    reveal_strlit("stupendous");
    reveal_strlit("supportive");
    reveal_strlit("surrender");
    reveal_strlit("suspicious");
    reveal_strlit("sympathy");
    reveal_strlit("tambourine");
    reveal_strlit("telephone");
    reveal_strlit("therapist");
    reveal_strlit("tobacco");
    assert forall|i: int| 208 <= i < 224 implies is_plain_word(#[trigger] ODD[i]@) by {
        if i == 208 {
        } else if i == 209 {
        } else if i == 210 {
        } else if i == 211 {
        } else if i == 212 {
        } else if i == 213 {
        } else if i == 214 {
        } else if i == 215 {
        } else if i == 216 {
        } else if i == 217 {
        } else if i == 218 {
        } else if i == 219 {
        } else if i == 220 {
        } else if i == 221 {
        } else if i == 222 {
        } else if i == 223 {
        }
    }
    assert forall|i: int| 208 <= i < 224 implies #[trigger] sort_key(ODD[odd_rank(i)]@) < sort_key(
        ODD[odd_rank(i + 1)]@,
    ) by {
        if i == 208 {
        } else if i == 209 {
        } else if i == 210 {
        } else if i == 211 {
        } else if i == 212 {
        } else if i == 213 {
        } else if i == 214 {
        } else if i == 215 {
        } else if i == 216 {
        } else if i == 217 {
        } else if i == 218 {
        } else if i == 219 {
        } else if i == 220 {
        } else if i == 221 {
        } else if i == 222 {
        } else if i == 223 {
        }
    }
}

/// The odd words at 224 to 239 are plain, and their sort keys increase
/// from each to the next in dictionary order.
proof fn lemma_odd_224_239()
    ensures
        forall|i: int| 224 <= i < 240 ==> is_plain_word(#[trigger] ODD[i]@),
        forall|i: int|
            224 <= i < 240 ==> #[trigger] sort_key(ODD[odd_rank(i)]@) < sort_key(
                ODD[odd_rank(i + 1)]@,
            ),
{
    reveal_strlit("tobacco");
    reveal_strlit("tolerance");
    reveal_strlit("tomorrow");
    reveal_strlit("torpedo");
    reveal_strlit("tradition");
    reveal_strlit("travesty");
    reveal_strlit("trombonist");
    reveal_strlit("truncated");
    reveal_strlit("typewriter");
    reveal_strlit("ultimate");
    reveal_strlit("undaunted");
    reveal_strlit("underfoot");
    reveal_strlit("unicorn");
    reveal_strlit("unify");
    reveal_strlit("universe");
    reveal_strlit("unravel");
    reveal_strlit("upcoming");
    assert forall|i: int| 224 <= i < 240 implies is_plain_word(#[trigger] ODD[i]@) by {
        if i == 224 {
        } else if i == 225 {
        } else if i == 226 {
        } else if i == 227 {
        } else if i == 228 {
        } else if i == 229 {
        } else if i == 230 {
        } else if i == 231 {
        } else if i == 232 {
        } else if i == 233 {
        } else if i == 234 {
        } else if i == 235 {
        } else if i == 236 {
        } else if i == 237 {
        } else if i == 238 {
        } else if i == 239 {
        }
    }
    assert forall|i: int| 224 <= i < 240 implies #[trigger] sort_key(ODD[odd_rank(i)]@) < sort_key(
        ODD[odd_rank(i + 1)]@,
    ) by {
        if i == 224 {
        } else if i == 225 {
        } else if i == 226 {
        } else if i == 227 {
        } else if i == 228 {
        } else if i == 229 {
        } else if i == 230 {
        } else if i == 231 {
        } else if i == 232 {
        } else if i == 233 {
        } else if i == 234 {
        } else if i == 235 {
        } else if i == 236 {
        } else if i == 237 {
        } else if i == 238 {
        } else if i == 239 {
        }
    }
}

/// The odd words at 240 to 255 are plain, and their sort keys increase
/// from each to the next in dictionary order.
proof fn lemma_odd_240_255()
    ensures
        forall|i: int| 240 <= i < 256 ==> is_plain_word(#[trigger] ODD[i]@),
        forall|i: int|
            240 <= i < 255 ==> #[trigger] sort_key(ODD[odd_rank(i)]@) < sort_key(
                ODD[odd_rank(i + 1)]@,
            ),
{
    reveal_strlit("upcoming");
    reveal_strlit("vacancy");
    reveal_strlit("vagabond");
    reveal_strlit("vertigo");
    reveal_strlit("Virginia");
    reveal_strlit("visitor");
    reveal_strlit("vocalist");
    reveal_strlit("voyager");
    reveal_strlit("warranty");
    reveal_strlit("Waterloo");
    reveal_strlit("whimsical");
    reveal_strlit("Wichita");
    reveal_strlit("Wilmington");
    reveal_strlit("Wyoming");
    reveal_strlit("yesteryear");
    reveal_strlit("Yucatan");
    assert forall|i: int| 240 <= i < 256 implies is_plain_word(#[trigger] ODD[i]@) by {
        if i == 240 {
        } else if i == 241 {
        } else if i == 242 {
        } else if i == 243 {
        } else if i == 244 {
        } else if i == 245 {
        } else if i == 246 {
        } else if i == 247 {
        } else if i == 248 {
        } else if i == 249 {
        } else if i == 250 {
        } else if i == 251 {
        } else if i == 252 {
        } else if i == 253 {
        } else if i == 254 {
        } else if i == 255 {
        }
    }
    assert forall|i: int| 240 <= i < 255 implies #[trigger] sort_key(ODD[odd_rank(i)]@) < sort_key(
        ODD[odd_rank(i + 1)]@,
    ) by {
        if i == 240 {
        } else if i == 241 {
        } else if i == 242 {
        } else if i == 243 {
        } else if i == 244 {
        } else if i == 245 {
        } else if i == 246 {
        } else if i == 247 {
        } else if i == 248 {
        } else if i == 249 {
        } else if i == 250 {
        } else if i == 251 {
        } else if i == 252 {
        } else if i == 253 {
        } else if i == 254 {
        }
    }
}

/// Every word of the even list is plain, and the sort keys of the even list increase
/// from each word to the next.
pub(crate) proof fn lemma_even_list()
    ensures
        forall|i: int| 0 <= i < 256 ==> is_plain_word(#[trigger] EVEN[i]@),
        forall|i: int| 0 <= i < 255 ==> #[trigger] sort_key(EVEN[i]@) < sort_key(EVEN[i + 1]@),
{
    lemma_even_0_15();
    lemma_even_16_31();
    lemma_even_32_47();
    lemma_even_48_63();
    lemma_even_64_79();
    lemma_even_80_95();
    lemma_even_96_111();
    lemma_even_112_127();
    lemma_even_128_143();
    lemma_even_144_159();
    lemma_even_160_175();
    lemma_even_176_191();
    lemma_even_192_207();
    lemma_even_208_223();
    lemma_even_224_239();
    lemma_even_240_255();
}

/// Every word of the odd list is plain, and the sort keys of the odd list increase
/// from each word to the next once the two words out of dictionary order are swapped.
pub(crate) proof fn lemma_odd_list()
    ensures
        forall|i: int| 0 <= i < 256 ==> is_plain_word(#[trigger] ODD[i]@),
        forall|i: int|
            0 <= i < 255 ==> #[trigger] sort_key(ODD[odd_rank(i)]@) < sort_key(ODD[odd_rank(i + 1)]@),
{
    lemma_odd_0_15();
    lemma_odd_16_31();
    lemma_odd_32_47();
    lemma_odd_48_63();
    lemma_odd_64_79();
    lemma_odd_80_95();
    lemma_odd_96_111();
    lemma_odd_112_127();
    lemma_odd_128_143();
    lemma_odd_144_159();
    lemma_odd_160_175();
    lemma_odd_176_191();
    lemma_odd_192_207();
    lemma_odd_208_223();
    lemma_odd_224_239();
    lemma_odd_240_255();
}

} // verus!
