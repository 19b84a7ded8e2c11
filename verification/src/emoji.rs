//! Names of reactions.

use vstd::prelude::*;
use vstd::string::*;

verus! {

/// The reactions that have a name of their own, each with the short name that
/// Slack's reactions API knows it by.
pub open spec fn named_reactions() -> Seq<(Seq<char>, Seq<char>)> {
    seq![
        ("👀"@, "eyes"@),
        ("🤔"@, "thinking_face"@),
        ("🔥"@, "fire"@),
        ("👨\u{200d}💻"@, "technologist"@),
        ("⚡"@, "zap"@),
        ("🆗"@, "ok"@),
        ("😱"@, "scream"@),
        ("🚫"@, "no_entry_sign"@),
        ("😊"@, "blush"@),
        ("😎"@, "sunglasses"@),
        ("🫡"@, "saluting_face"@),
        ("🤓"@, "nerd_face"@),
        ("😏"@, "smirk"@),
        ("✌\u{fe0f}"@, "v"@),
        ("💪"@, "muscle"@),
        ("🦾"@, "mechanical_arm"@),
        ("🥱"@, "yawning_face"@),
        ("😨"@, "fearful"@),
        ("✅"@, "white_check_mark"@),
        ("❌"@, "x"@),
        ("🔧"@, "wrench"@),
    ]
}

/// The short name of a reaction: the one that the table gives it, or
/// `grey_question` for a reaction that is not in the table.
pub open spec fn reaction_name(unicode: Seq<char>) -> Seq<char> {
    name_in(named_reactions(), unicode)
}

/// The name that stands beside the first occurrence of `unicode` in `table`.
pub open spec fn name_in(table: Seq<(Seq<char>, Seq<char>)>, unicode: Seq<char>) -> Seq<char>
    decreases table.len(),
{
    if table.len() == 0 {
        "grey_question"@
    } else if table.first().0 == unicode {
        table.first().1
    } else {
        name_in(table.drop_first(), unicode)
    }
}

/// Whether a reaction has a name of its own.
pub open spec fn is_named(unicode: Seq<char>) -> bool {
    exists|i: int|
        0 <= i < named_reactions().len() && (#[trigger] named_reactions()[i]).0 == unicode
}

/// Map Unicode emoji to Slack short names for the reactions API. A reaction
/// without a name of its own is `grey_question`.
pub fn unicode_to_slack_emoji(unicode: &str) -> (name: &'static str)
    ensures
        name@ == reaction_name(unicode@),
{
    proof {
        reveal_with_fuel(name_in, 22);
    }
    if *unicode == *"👀" {
        "eyes"
    } else if *unicode == *"🤔" {
        "thinking_face"
    } else if *unicode == *"🔥" {
        "fire"
    } else if *unicode == *"👨\u{200d}💻" {
        "technologist"
    } else if *unicode == *"⚡" {
        "zap"
    } else if *unicode == *"🆗" {
        "ok"
    } else if *unicode == *"😱" {
        "scream"
    } else if *unicode == *"🚫" {
        "no_entry_sign"
    } else if *unicode == *"😊" {
        "blush"
    } else if *unicode == *"😎" {
        "sunglasses"
    } else if *unicode == *"🫡" {
        "saluting_face"
    } else if *unicode == *"🤓" {
        "nerd_face"
    } else if *unicode == *"😏" {
        "smirk"
    } else if *unicode == *"✌\u{fe0f}" {
        "v"
    } else if *unicode == *"💪" {
        "muscle"
    } else if *unicode == *"🦾" {
        "mechanical_arm"
    } else if *unicode == *"🥱" {
        "yawning_face"
    } else if *unicode == *"😨" {
        "fearful"
    } else if *unicode == *"✅" {
        "white_check_mark"
    } else if *unicode == *"❌" {
        "x"
    } else if *unicode == *"🔧" {
        "wrench"
    } else {
        "grey_question"
    }
}

/// What the literals of the table hold, as far as it tells them apart: no two
/// reactions begin alike, and no two names, `grey_question` included, agree in
/// both length and first character.
proof fn lemma_table_literals()
    ensures
        forall|i: int, j: int|
            #![trigger named_reactions()[i], named_reactions()[j]]
            0 <= i < j < named_reactions().len() ==> {
                &&& named_reactions()[i].0 != named_reactions()[j].0
                &&& named_reactions()[i].1 != named_reactions()[j].1
            },
        forall|i: int|
            #![trigger named_reactions()[i]]
            0 <= i < named_reactions().len() ==> named_reactions()[i].1 != "grey_question"@,
{
    reveal_strlit("👀");
    reveal_strlit("🤔");
    reveal_strlit("🔥");
    reveal_strlit("👨\u{200d}💻");
    reveal_strlit("⚡");
    reveal_strlit("🆗");
    reveal_strlit("😱");
    reveal_strlit("🚫");
    reveal_strlit("😊");
    reveal_strlit("😎");
    reveal_strlit("🫡");
    reveal_strlit("🤓");
    reveal_strlit("😏");
    reveal_strlit("✌\u{fe0f}");
    reveal_strlit("💪");
    reveal_strlit("🦾");
    reveal_strlit("🥱");
    reveal_strlit("😨");
    reveal_strlit("✅");
    reveal_strlit("❌");
    reveal_strlit("🔧");
    reveal_strlit("eyes");
    reveal_strlit("thinking_face");
    reveal_strlit("fire");
    reveal_strlit("technologist");
    reveal_strlit("zap");
    reveal_strlit("ok");
    reveal_strlit("scream");
    reveal_strlit("no_entry_sign");
    reveal_strlit("blush");
    reveal_strlit("sunglasses");
    reveal_strlit("saluting_face");
    reveal_strlit("nerd_face");
    reveal_strlit("smirk");
    reveal_strlit("v");
    reveal_strlit("muscle");
    reveal_strlit("mechanical_arm");
    reveal_strlit("yawning_face");
    reveal_strlit("fearful");
    reveal_strlit("white_check_mark");
    reveal_strlit("x");
    reveal_strlit("wrench");
    reveal_strlit("grey_question");
    let table = named_reactions();
    assert forall|i: int, j: int| 0 <= i < j < table.len() implies (#[trigger] table[i]).0[0] != (
    #[trigger] table[j]).0[0] && !(table[i].1.len() == table[j].1.len() && table[i].1[0]
        == table[j].1[0]) by {}
}

/// Each reaction of the table gets the name that stands beside it.
pub proof fn law_named_reaction(i: int)
    requires
        0 <= i < named_reactions().len(),
    ensures
        reaction_name(named_reactions()[i].0) == named_reactions()[i].1,
{
    lemma_table_literals();
    lemma_name_in(named_reactions(), i);
}

/// In a table that holds no reaction twice, an entry's reaction gets its name.
proof fn lemma_name_in(table: Seq<(Seq<char>, Seq<char>)>, i: int)
    requires
        0 <= i < table.len(),
        forall|k: int| 0 <= k < i ==> (#[trigger] table[k]).0 != table[i].0,
    ensures
        name_in(table, table[i].0) == table[i].1,
    decreases i,
{
    if i > 0 {
        let rest = table.drop_first();
        assert forall|k: int| 0 <= k < i - 1 implies (#[trigger] rest[k]).0 != rest[i - 1].0 by {
            assert(rest[k] == table[k + 1]);
        }
        lemma_name_in(rest, i - 1);
    }
}

/// A reaction outside the table is `grey_question`, and only such a one is.
pub proof fn law_other_reaction(unicode: Seq<char>)
    ensures
        reaction_name(unicode) == "grey_question"@ <==> !is_named(unicode),
{
    if is_named(unicode) {
        let i = choose|i: int|
            0 <= i < named_reactions().len() && (#[trigger] named_reactions()[i]).0 == unicode;
        law_named_reaction(i);
        lemma_table_literals();
        assert(named_reactions()[i].1 != "grey_question"@);
    } else {
        lemma_name_in_none(named_reactions(), unicode);
    }
}

/// A reaction that a table does not hold is `grey_question`.
proof fn lemma_name_in_none(table: Seq<(Seq<char>, Seq<char>)>, unicode: Seq<char>)
    requires
        forall|i: int| 0 <= i < table.len() ==> (#[trigger] table[i]).0 != unicode,
    ensures
        name_in(table, unicode) == "grey_question"@,
    decreases table.len(),
{
    if table.len() > 0 {
        let rest = table.drop_first();
        assert forall|k: int| 0 <= k < rest.len() implies (#[trigger] rest[k]).0 != unicode by {
            assert(rest[k] == table[k + 1]);
        }
        lemma_name_in_none(rest, unicode);
    }
}

/// No two reactions of the table share a name.
pub proof fn law_names_tell_reactions_apart(a: Seq<char>, b: Seq<char>)
    requires
        is_named(a),
        is_named(b),
        reaction_name(a) == reaction_name(b),
    ensures
        a == b,
{
    let table = named_reactions();
    let i = choose|i: int| 0 <= i < table.len() && (#[trigger] named_reactions()[i]).0 == a;
    let j = choose|j: int| 0 <= j < table.len() && (#[trigger] named_reactions()[j]).0 == b;
    law_named_reaction(i);
    law_named_reaction(j);
    lemma_table_literals();
    if i < j {
        assert(table[i].1 != table[j].1);
    } else if j < i {
        assert(table[j].1 != table[i].1);
    }
}

/// Only these reactions have a name of their own; every other one, whatever it is,
/// is `grey_question`.
pub proof fn law_no_other_reaction_is_named(unicode: Seq<char>)
    requires
        unicode != "👀"@,
        unicode != "🤔"@,
        unicode != "🔥"@,
        unicode != "👨\u{200d}💻"@,
        unicode != "⚡"@,
        unicode != "🆗"@,
        unicode != "😱"@,
        unicode != "🚫"@,
        unicode != "😊"@,
        unicode != "😎"@,
        unicode != "🫡"@,
        unicode != "🤓"@,
        unicode != "😏"@,
        unicode != "✌\u{fe0f}"@,
        unicode != "💪"@,
        unicode != "🦾"@,
        unicode != "🥱"@,
        unicode != "😨"@,
        unicode != "✅"@,
        unicode != "❌"@,
        unicode != "🔧"@,
    ensures
        reaction_name(unicode) == "grey_question"@,
{
    reveal_with_fuel(name_in, 22);
}

/// A reaction that bears one of these names is the one that is known by it.
pub proof fn law_names_say_which_reaction(unicode: Seq<char>)
    ensures
        reaction_name(unicode) == "eyes"@ <==> unicode == "👀"@,
        reaction_name(unicode) == "thinking_face"@ <==> unicode == "🤔"@,
        reaction_name(unicode) == "fire"@ <==> unicode == "🔥"@,
        reaction_name(unicode) == "technologist"@ <==> unicode == "👨\u{200d}💻"@,
        reaction_name(unicode) == "zap"@ <==> unicode == "⚡"@,
        reaction_name(unicode) == "ok"@ <==> unicode == "🆗"@,
        reaction_name(unicode) == "scream"@ <==> unicode == "😱"@,
        reaction_name(unicode) == "no_entry_sign"@ <==> unicode == "🚫"@,
        reaction_name(unicode) == "blush"@ <==> unicode == "😊"@,
        reaction_name(unicode) == "sunglasses"@ <==> unicode == "😎"@,
        reaction_name(unicode) == "saluting_face"@ <==> unicode == "🫡"@,
        reaction_name(unicode) == "nerd_face"@ <==> unicode == "🤓"@,
        reaction_name(unicode) == "smirk"@ <==> unicode == "😏"@,
        reaction_name(unicode) == "v"@ <==> unicode == "✌\u{fe0f}"@,
        reaction_name(unicode) == "muscle"@ <==> unicode == "💪"@,
        reaction_name(unicode) == "mechanical_arm"@ <==> unicode == "🦾"@,
        reaction_name(unicode) == "yawning_face"@ <==> unicode == "🥱"@,
        reaction_name(unicode) == "fearful"@ <==> unicode == "😨"@,
        reaction_name(unicode) == "white_check_mark"@ <==> unicode == "✅"@,
        reaction_name(unicode) == "x"@ <==> unicode == "❌"@,
        reaction_name(unicode) == "wrench"@ <==> unicode == "🔧"@,
{
    lemma_table_literals();
    let table = named_reactions();
    assert forall|i: int| 0 <= i < table.len() implies (reaction_name(unicode) == (
    #[trigger] table[i]).1 <==> unicode == table[i].0) by {
        law_named_reaction(i);
        if reaction_name(unicode) == table[i].1 {
            assert(table[i].1 != "grey_question"@);
            assert(is_named(table[i].0));
            law_other_reaction(unicode);
            law_names_tell_reactions_apart(unicode, table[i].0);
        }
    }
    assert(table[0] == ("👀"@, "eyes"@));
    assert(table[1] == ("🤔"@, "thinking_face"@));
    assert(table[2] == ("🔥"@, "fire"@));
    assert(table[3] == ("👨\u{200d}💻"@, "technologist"@));
    assert(table[4] == ("⚡"@, "zap"@));
    assert(table[5] == ("🆗"@, "ok"@));
    assert(table[6] == ("😱"@, "scream"@));
    assert(table[7] == ("🚫"@, "no_entry_sign"@));
    assert(table[8] == ("😊"@, "blush"@));
    assert(table[9] == ("😎"@, "sunglasses"@));
    assert(table[10] == ("🫡"@, "saluting_face"@));
    assert(table[11] == ("🤓"@, "nerd_face"@));
    assert(table[12] == ("😏"@, "smirk"@));
    assert(table[13] == ("✌\u{fe0f}"@, "v"@));
    assert(table[14] == ("💪"@, "muscle"@));
    assert(table[15] == ("🦾"@, "mechanical_arm"@));
    assert(table[16] == ("🥱"@, "yawning_face"@));
    assert(table[17] == ("😨"@, "fearful"@));
    assert(table[18] == ("✅"@, "white_check_mark"@));
    assert(table[19] == ("❌"@, "x"@));
    assert(table[20] == ("🔧"@, "wrench"@));
}

} // verus!
