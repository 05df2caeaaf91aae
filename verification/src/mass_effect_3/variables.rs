use indexmap::IndexMap;
use vstd::prelude::*;

use crate::cursor::SaveCursor;
use crate::error::SaveError;
use crate::save_data::{fixed_extent, le_u32, then_extent, SaveData};

verus! {

broadcast use crate::seq_lemmas::lemma_skip_skip;

/// Whether bit `bit` of `word` is set.
pub open spec fn bit_of(word: u32, bit: nat) -> bool {
    (word & (1u32 << (bit as u32))) != 0
}

/// The flags stored in `input` after its 32-bit word count: bit `b` of word
/// `w` is flag `32 * w + b`.
pub open spec fn stored_bits(input: Seq<u8>) -> Seq<bool> {
    Seq::new(
        (32 * le_u32(input)) as nat,
        |i: int| bit_of(le_u32(input.skip(4 + 4 * (i / 32))) as u32, (i % 32) as nat),
    )
}

proof fn lemma_bit_index(w: int, b: int)
    requires
        0 <= w,
        0 <= b < 32,
    ensures
        (32 * w + b) / 32 == w,
        (32 * w + b) % 32 == b,
{
    assert((32 * w + b) / 32 == w && (32 * w + b) % 32 == b) by (nonlinear_arith)
        requires
            0 <= w,
            0 <= b < 32,
    ;
}

/// Boolean plot variables: a 32-bit count of words, then the words, each
/// holding 32 flags from its lowest bit up.
#[derive(Debug)]
pub struct BitArray {
    pub variables: Vec<bool>,
}

impl SaveData for BitArray {
    closed spec fn spec_extent(input: Seq<u8>) -> Result<nat, SaveError> {
        if input.len() < 4 {
            Err(SaveError::UnexpectedEndOfFile)
        } else {
            fixed_extent(input, (4 + 4 * le_u32(input)) as nat)
        }
    }

    closed spec fn spec_encodes(input: Seq<u8>, value: BitArray) -> bool {
        value.variables@ == stored_bits(input)
    }

    fn deserialize(cursor: &mut SaveCursor) -> (res: Result<BitArray, SaveError>) {
        let ghost input = cursor.remaining();
        let num_words = match <u32 as SaveData>::deserialize(cursor) {
            Ok(n) => n,
            Err(e) => return Err(e),
        };
        if num_words as usize > cursor.remaining_len() / 4 {
            return Err(SaveError::UnexpectedEndOfFile);
        }
        let ghost expected = stored_bits(input);
        let mut variables: Vec<bool> = Vec::new();
        let mut w: u32 = 0;
        while w < num_words
            invariant
                w <= num_words,
                num_words == le_u32(input),
                4 + 4 * num_words <= input.len(),
                cursor.wf(),
                cursor.bytes() == old(cursor).bytes(),
                input == old(cursor).remaining(),
                expected == stored_bits(input),
                cursor.position() == old(cursor).position() + 4 + 4 * w,
                variables@ == expected.take(32 * w),
            decreases num_words - w,
        {
            let ghost word_start = cursor.remaining();
            let bits = match <u32 as SaveData>::deserialize(cursor) {
                Ok(bits) => bits,
                Err(e) => return Err(e),
            };
            proof {
                assert(word_start == input.skip(4 + 4 * w));
            }
            let mut bit: u32 = 0;
            while bit < 32
                invariant
                    bit <= 32,
                    w < num_words,
                    num_words == le_u32(input),
                    expected == stored_bits(input),
                    bits == le_u32(input.skip(4 + 4 * w)),
                    variables@ == expected.take(32 * w + bit),
                decreases 32 - bit,
            {
                variables.push((bits & (1u32 << bit)) != 0);
                proof {
                    lemma_bit_index(w as int, bit as int);
                    assert(variables@ =~= expected.take(32 * w + bit + 1));
                }
                bit = bit + 1;
            }
            w = w + 1;
        }
        proof {
            assert(expected.take(32 * num_words) =~= expected);
        }
        Ok(BitArray { variables })
    }
}

/// How a value of type `BitArray` is laid out in a save file: the bytes its reader takes
/// and the value they encode.
pub proof fn lemma_bit_array_layout(input: Seq<u8>, value: BitArray)
    ensures
        <BitArray as SaveData>::spec_extent(input) == ({
            if input.len() < 4 {
                Err(SaveError::UnexpectedEndOfFile)
            } else {
                fixed_extent(input, (4 + 4 * le_u32(input)) as nat)
            }
        }),
        <BitArray as SaveData>::spec_encodes(input, value) == ({
            value.variables@ == stored_bits(input)
        }),
{
}


/// The plot state of the current game.
#[derive(Debug)]
pub struct PlotTable {
    pub bool_variables: BitArray,
    pub int_variables: IndexMap<i32, i32>,
    /// The floats are held as bit patterns.
    pub float_variables: IndexMap<i32, u32>,
    pub quest_progress_counter: i32,
    pub quest_progress: Vec<PlotQuest>,
    pub quest_ids: Vec<i32>,
    pub codex_entries: Vec<PlotCodex>,
    pub codex_ids: Vec<i32>,
}

impl SaveData for PlotTable {
    closed spec fn spec_extent(input: Seq<u8>) -> Result<nat, SaveError> {
        let r0 = <BitArray as SaveData>::spec_extent(input);
        let r1 = then_extent::<IndexMap<i32, i32>>(input, r0);
        let r2 = then_extent::<IndexMap<i32, u32>>(input, r1);
        let r3 = then_extent::<i32>(input, r2);
        let r4 = then_extent::<Vec<PlotQuest>>(input, r3);
        let r5 = then_extent::<Vec<i32>>(input, r4);
        let r6 = then_extent::<Vec<PlotCodex>>(input, r5);
        let r7 = then_extent::<Vec<i32>>(input, r6);
        r7
    }

    closed spec fn spec_encodes(input: Seq<u8>, value: PlotTable) -> bool {
        let r0 = <BitArray as SaveData>::spec_extent(input);
        let r1 = then_extent::<IndexMap<i32, i32>>(input, r0);
        let r2 = then_extent::<IndexMap<i32, u32>>(input, r1);
        let r3 = then_extent::<i32>(input, r2);
        let r4 = then_extent::<Vec<PlotQuest>>(input, r3);
        let r5 = then_extent::<Vec<i32>>(input, r4);
        let r6 = then_extent::<Vec<PlotCodex>>(input, r5);
        &&& <BitArray as SaveData>::spec_encodes(input, value.bool_variables)
        &&& <IndexMap<i32, i32> as SaveData>::spec_encodes(input.skip(r0->Ok_0 as int), value.int_variables)
        &&& <IndexMap<i32, u32> as SaveData>::spec_encodes(input.skip(r1->Ok_0 as int), value.float_variables)
        &&& <i32 as SaveData>::spec_encodes(input.skip(r2->Ok_0 as int), value.quest_progress_counter)
        &&& <Vec<PlotQuest> as SaveData>::spec_encodes(input.skip(r3->Ok_0 as int), value.quest_progress)
        &&& <Vec<i32> as SaveData>::spec_encodes(input.skip(r4->Ok_0 as int), value.quest_ids)
        &&& <Vec<PlotCodex> as SaveData>::spec_encodes(input.skip(r5->Ok_0 as int), value.codex_entries)
        &&& <Vec<i32> as SaveData>::spec_encodes(input.skip(r6->Ok_0 as int), value.codex_ids)
    }

    #[verifier::rlimit(80)]
    #[verifier::spinoff_prover]
    fn deserialize(cursor: &mut SaveCursor) -> (res: Result<PlotTable, SaveError>) {
        let ghost input = cursor.remaining();
        let ghost start = cursor.position();
        let bool_variables = match <BitArray as SaveData>::deserialize(cursor) {
            Ok(v) => v,
            Err(e) => return Err(e),
        };
        let ghost r0 = <BitArray as SaveData>::spec_extent(input);
        assert(r0 == Ok::<nat, SaveError>((cursor.position() - start) as nat));
        let int_variables = match <IndexMap<i32, i32> as SaveData>::deserialize(cursor) {
            Ok(v) => v,
            Err(e) => return Err(e),
        };
        let ghost r1 = then_extent::<IndexMap<i32, i32>>(input, r0);
        assert(r1 == Ok::<nat, SaveError>((cursor.position() - start) as nat));
        let float_variables = match <IndexMap<i32, u32> as SaveData>::deserialize(cursor) {
            Ok(v) => v,
            Err(e) => return Err(e),
        };
        let ghost r2 = then_extent::<IndexMap<i32, u32>>(input, r1);
        assert(r2 == Ok::<nat, SaveError>((cursor.position() - start) as nat));
        let quest_progress_counter = match <i32 as SaveData>::deserialize(cursor) {
            Ok(v) => v,
            Err(e) => return Err(e),
        };
        let ghost r3 = then_extent::<i32>(input, r2);
        assert(r3 == Ok::<nat, SaveError>((cursor.position() - start) as nat));
        let quest_progress = match <Vec<PlotQuest> as SaveData>::deserialize(cursor) {
            Ok(v) => v,
            Err(e) => return Err(e),
        };
        let ghost r4 = then_extent::<Vec<PlotQuest>>(input, r3);
        assert(r4 == Ok::<nat, SaveError>((cursor.position() - start) as nat));
        let quest_ids = match <Vec<i32> as SaveData>::deserialize(cursor) {
            Ok(v) => v,
            Err(e) => return Err(e),
        };
        let ghost r5 = then_extent::<Vec<i32>>(input, r4);
        assert(r5 == Ok::<nat, SaveError>((cursor.position() - start) as nat));
        let codex_entries = match <Vec<PlotCodex> as SaveData>::deserialize(cursor) {
            Ok(v) => v,
            Err(e) => return Err(e),
        };
        let ghost r6 = then_extent::<Vec<PlotCodex>>(input, r5);
        assert(r6 == Ok::<nat, SaveError>((cursor.position() - start) as nat));
        let codex_ids = match <Vec<i32> as SaveData>::deserialize(cursor) {
            Ok(v) => v,
            Err(e) => return Err(e),
        };
        let ghost r7 = then_extent::<Vec<i32>>(input, r6);
        assert(r7 == Ok::<nat, SaveError>((cursor.position() - start) as nat));
        Ok(PlotTable { bool_variables, int_variables, float_variables, quest_progress_counter, quest_progress, quest_ids, codex_entries, codex_ids })
    }
}

/// How a value of type `PlotTable` is laid out in a save file: the bytes its reader takes
/// and the value they encode.
pub proof fn lemma_plot_table_layout(input: Seq<u8>, value: PlotTable)
    ensures
        <PlotTable as SaveData>::spec_extent(input) == ({
            let r0 = <BitArray as SaveData>::spec_extent(input);
            let r1 = then_extent::<IndexMap<i32, i32>>(input, r0);
            let r2 = then_extent::<IndexMap<i32, u32>>(input, r1);
            let r3 = then_extent::<i32>(input, r2);
            let r4 = then_extent::<Vec<PlotQuest>>(input, r3);
            let r5 = then_extent::<Vec<i32>>(input, r4);
            let r6 = then_extent::<Vec<PlotCodex>>(input, r5);
            let r7 = then_extent::<Vec<i32>>(input, r6);
            r7
        }),
        <PlotTable as SaveData>::spec_encodes(input, value) == ({
            let r0 = <BitArray as SaveData>::spec_extent(input);
            let r1 = then_extent::<IndexMap<i32, i32>>(input, r0);
            let r2 = then_extent::<IndexMap<i32, u32>>(input, r1);
            let r3 = then_extent::<i32>(input, r2);
            let r4 = then_extent::<Vec<PlotQuest>>(input, r3);
            let r5 = then_extent::<Vec<i32>>(input, r4);
            let r6 = then_extent::<Vec<PlotCodex>>(input, r5);
            &&& <BitArray as SaveData>::spec_encodes(input, value.bool_variables)
            &&& <IndexMap<i32, i32> as SaveData>::spec_encodes(input.skip(r0->Ok_0 as int), value.int_variables)
            &&& <IndexMap<i32, u32> as SaveData>::spec_encodes(input.skip(r1->Ok_0 as int), value.float_variables)
            &&& <i32 as SaveData>::spec_encodes(input.skip(r2->Ok_0 as int), value.quest_progress_counter)
            &&& <Vec<PlotQuest> as SaveData>::spec_encodes(input.skip(r3->Ok_0 as int), value.quest_progress)
            &&& <Vec<i32> as SaveData>::spec_encodes(input.skip(r4->Ok_0 as int), value.quest_ids)
            &&& <Vec<PlotCodex> as SaveData>::spec_encodes(input.skip(r5->Ok_0 as int), value.codex_entries)
            &&& <Vec<i32> as SaveData>::spec_encodes(input.skip(r6->Ok_0 as int), value.codex_ids)
        }),
{
}


/// The plot state imported from Mass Effect 1.
#[derive(Debug)]
pub struct Me1PlotTable {
    pub bool_variables: BitArray,
    pub int_variables: IndexMap<i32, i32>,
    /// The floats are held as bit patterns.
    pub float_variables: IndexMap<i32, u32>,
}

impl SaveData for Me1PlotTable {
    closed spec fn spec_extent(input: Seq<u8>) -> Result<nat, SaveError> {
        let r0 = <BitArray as SaveData>::spec_extent(input);
        let r1 = then_extent::<IndexMap<i32, i32>>(input, r0);
        let r2 = then_extent::<IndexMap<i32, u32>>(input, r1);
        r2
    }

    closed spec fn spec_encodes(input: Seq<u8>, value: Me1PlotTable) -> bool {
        let r0 = <BitArray as SaveData>::spec_extent(input);
        let r1 = then_extent::<IndexMap<i32, i32>>(input, r0);
        &&& <BitArray as SaveData>::spec_encodes(input, value.bool_variables)
        &&& <IndexMap<i32, i32> as SaveData>::spec_encodes(input.skip(r0->Ok_0 as int), value.int_variables)
        &&& <IndexMap<i32, u32> as SaveData>::spec_encodes(input.skip(r1->Ok_0 as int), value.float_variables)
    }

    fn deserialize(cursor: &mut SaveCursor) -> (res: Result<Me1PlotTable, SaveError>) {
        let ghost input = cursor.remaining();
        let ghost start = cursor.position();
        let bool_variables = match <BitArray as SaveData>::deserialize(cursor) {
            Ok(v) => v,
            Err(e) => return Err(e),
        };
        let ghost r0 = <BitArray as SaveData>::spec_extent(input);
        assert(r0 == Ok::<nat, SaveError>((cursor.position() - start) as nat));
        let int_variables = match <IndexMap<i32, i32> as SaveData>::deserialize(cursor) {
            Ok(v) => v,
            Err(e) => return Err(e),
        };
        let ghost r1 = then_extent::<IndexMap<i32, i32>>(input, r0);
        assert(r1 == Ok::<nat, SaveError>((cursor.position() - start) as nat));
        let float_variables = match <IndexMap<i32, u32> as SaveData>::deserialize(cursor) {
            Ok(v) => v,
            Err(e) => return Err(e),
        };
        let ghost r2 = then_extent::<IndexMap<i32, u32>>(input, r1);
        assert(r2 == Ok::<nat, SaveError>((cursor.position() - start) as nat));
        Ok(Me1PlotTable { bool_variables, int_variables, float_variables })
    }
}

/// How a value of type `Me1PlotTable` is laid out in a save file: the bytes its reader takes
/// and the value they encode.
pub proof fn lemma_me1_plot_table_layout(input: Seq<u8>, value: Me1PlotTable)
    ensures
        <Me1PlotTable as SaveData>::spec_extent(input) == ({
            let r0 = <BitArray as SaveData>::spec_extent(input);
            let r1 = then_extent::<IndexMap<i32, i32>>(input, r0);
            let r2 = then_extent::<IndexMap<i32, u32>>(input, r1);
            r2
        }),
        <Me1PlotTable as SaveData>::spec_encodes(input, value) == ({
            let r0 = <BitArray as SaveData>::spec_extent(input);
            let r1 = then_extent::<IndexMap<i32, i32>>(input, r0);
            &&& <BitArray as SaveData>::spec_encodes(input, value.bool_variables)
            &&& <IndexMap<i32, i32> as SaveData>::spec_encodes(input.skip(r0->Ok_0 as int), value.int_variables)
            &&& <IndexMap<i32, u32> as SaveData>::spec_encodes(input.skip(r1->Ok_0 as int), value.float_variables)
        }),
{
}


/// The progress of a quest.
#[derive(Debug)]
pub struct PlotQuest {
    pub quest_counter: i32,
    pub quest_updated: bool,
    pub active_goal: i32,
    pub history: Vec<i32>,
}

impl SaveData for PlotQuest {
    closed spec fn spec_extent(input: Seq<u8>) -> Result<nat, SaveError> {
        let r0 = <i32 as SaveData>::spec_extent(input);
        let r1 = then_extent::<bool>(input, r0);
        let r2 = then_extent::<i32>(input, r1);
        let r3 = then_extent::<Vec<i32>>(input, r2);
        r3
    }

    closed spec fn spec_encodes(input: Seq<u8>, value: PlotQuest) -> bool {
        let r0 = <i32 as SaveData>::spec_extent(input);
        let r1 = then_extent::<bool>(input, r0);
        let r2 = then_extent::<i32>(input, r1);
        &&& <i32 as SaveData>::spec_encodes(input, value.quest_counter)
        &&& <bool as SaveData>::spec_encodes(input.skip(r0->Ok_0 as int), value.quest_updated)
        &&& <i32 as SaveData>::spec_encodes(input.skip(r1->Ok_0 as int), value.active_goal)
        &&& <Vec<i32> as SaveData>::spec_encodes(input.skip(r2->Ok_0 as int), value.history)
    }

    fn deserialize(cursor: &mut SaveCursor) -> (res: Result<PlotQuest, SaveError>) {
        let ghost input = cursor.remaining();
        let ghost start = cursor.position();
        let quest_counter = match <i32 as SaveData>::deserialize(cursor) {
            Ok(v) => v,
            Err(e) => return Err(e),
        };
        let ghost r0 = <i32 as SaveData>::spec_extent(input);
        assert(r0 == Ok::<nat, SaveError>((cursor.position() - start) as nat));
        let quest_updated = match <bool as SaveData>::deserialize(cursor) {
            Ok(v) => v,
            Err(e) => return Err(e),
        };
        let ghost r1 = then_extent::<bool>(input, r0);
        assert(r1 == Ok::<nat, SaveError>((cursor.position() - start) as nat));
        let active_goal = match <i32 as SaveData>::deserialize(cursor) {
            Ok(v) => v,
            Err(e) => return Err(e),
        };
        let ghost r2 = then_extent::<i32>(input, r1);
        assert(r2 == Ok::<nat, SaveError>((cursor.position() - start) as nat));
        let history = match <Vec<i32> as SaveData>::deserialize(cursor) {
            Ok(v) => v,
            Err(e) => return Err(e),
        };
        let ghost r3 = then_extent::<Vec<i32>>(input, r2);
        assert(r3 == Ok::<nat, SaveError>((cursor.position() - start) as nat));
        Ok(PlotQuest { quest_counter, quest_updated, active_goal, history })
    }
}

/// How a value of type `PlotQuest` is laid out in a save file: the bytes its reader takes
/// and the value they encode.
pub proof fn lemma_plot_quest_layout(input: Seq<u8>, value: PlotQuest)
    ensures
        <PlotQuest as SaveData>::spec_extent(input) == ({
            let r0 = <i32 as SaveData>::spec_extent(input);
            let r1 = then_extent::<bool>(input, r0);
            let r2 = then_extent::<i32>(input, r1);
            let r3 = then_extent::<Vec<i32>>(input, r2);
            r3
        }),
        <PlotQuest as SaveData>::spec_encodes(input, value) == ({
            let r0 = <i32 as SaveData>::spec_extent(input);
            let r1 = then_extent::<bool>(input, r0);
            let r2 = then_extent::<i32>(input, r1);
            &&& <i32 as SaveData>::spec_encodes(input, value.quest_counter)
            &&& <bool as SaveData>::spec_encodes(input.skip(r0->Ok_0 as int), value.quest_updated)
            &&& <i32 as SaveData>::spec_encodes(input.skip(r1->Ok_0 as int), value.active_goal)
            &&& <Vec<i32> as SaveData>::spec_encodes(input.skip(r2->Ok_0 as int), value.history)
        }),
{
}


/// A codex entry.
#[derive(Debug)]
pub struct PlotCodex {
    pub pages: Vec<PlotCodexPage>,
}

impl SaveData for PlotCodex {
    closed spec fn spec_extent(input: Seq<u8>) -> Result<nat, SaveError> {
        let r0 = <Vec<PlotCodexPage> as SaveData>::spec_extent(input);
        r0
    }

    closed spec fn spec_encodes(input: Seq<u8>, value: PlotCodex) -> bool {
        let r0 = <Vec<PlotCodexPage> as SaveData>::spec_extent(input);
        &&& <Vec<PlotCodexPage> as SaveData>::spec_encodes(input, value.pages)
    }

    fn deserialize(cursor: &mut SaveCursor) -> (res: Result<PlotCodex, SaveError>) {
        let ghost input = cursor.remaining();
        let ghost start = cursor.position();
        let pages = match <Vec<PlotCodexPage> as SaveData>::deserialize(cursor) {
            Ok(v) => v,
            Err(e) => return Err(e),
        };
        let ghost r0 = <Vec<PlotCodexPage> as SaveData>::spec_extent(input);
        assert(r0 == Ok::<nat, SaveError>((cursor.position() - start) as nat));
        Ok(PlotCodex { pages })
    }
}

/// How a value of type `PlotCodex` is laid out in a save file: the bytes its reader takes
/// and the value they encode.
pub proof fn lemma_plot_codex_layout(input: Seq<u8>, value: PlotCodex)
    ensures
        <PlotCodex as SaveData>::spec_extent(input) == ({
            let r0 = <Vec<PlotCodexPage> as SaveData>::spec_extent(input);
            r0
        }),
        <PlotCodex as SaveData>::spec_encodes(input, value) == ({
            let r0 = <Vec<PlotCodexPage> as SaveData>::spec_extent(input);
            &&& <Vec<PlotCodexPage> as SaveData>::spec_encodes(input, value.pages)
        }),
{
}


/// A page of a codex entry.
#[derive(Debug)]
pub struct PlotCodexPage {
    pub page: i32,
    pub is_new: bool,
}

impl SaveData for PlotCodexPage {
    closed spec fn spec_extent(input: Seq<u8>) -> Result<nat, SaveError> {
        let r0 = <i32 as SaveData>::spec_extent(input);
        let r1 = then_extent::<bool>(input, r0);
        r1
    }

    closed spec fn spec_encodes(input: Seq<u8>, value: PlotCodexPage) -> bool {
        let r0 = <i32 as SaveData>::spec_extent(input);
        &&& <i32 as SaveData>::spec_encodes(input, value.page)
        &&& <bool as SaveData>::spec_encodes(input.skip(r0->Ok_0 as int), value.is_new)
    }

    fn deserialize(cursor: &mut SaveCursor) -> (res: Result<PlotCodexPage, SaveError>) {
        let ghost input = cursor.remaining();
        let ghost start = cursor.position();
        let page = match <i32 as SaveData>::deserialize(cursor) {
            Ok(v) => v,
            Err(e) => return Err(e),
        };
        let ghost r0 = <i32 as SaveData>::spec_extent(input);
        assert(r0 == Ok::<nat, SaveError>((cursor.position() - start) as nat));
        let is_new = match <bool as SaveData>::deserialize(cursor) {
            Ok(v) => v,
            Err(e) => return Err(e),
        };
        let ghost r1 = then_extent::<bool>(input, r0);
        assert(r1 == Ok::<nat, SaveError>((cursor.position() - start) as nat));
        Ok(PlotCodexPage { page, is_new })
    }
}

/// How a value of type `PlotCodexPage` is laid out in a save file: the bytes its reader takes
/// and the value they encode.
pub proof fn lemma_plot_codex_page_layout(input: Seq<u8>, value: PlotCodexPage)
    ensures
        <PlotCodexPage as SaveData>::spec_extent(input) == ({
            let r0 = <i32 as SaveData>::spec_extent(input);
            let r1 = then_extent::<bool>(input, r0);
            r1
        }),
        <PlotCodexPage as SaveData>::spec_encodes(input, value) == ({
            let r0 = <i32 as SaveData>::spec_extent(input);
            &&& <i32 as SaveData>::spec_encodes(input, value.page)
            &&& <bool as SaveData>::spec_encodes(input.skip(r0->Ok_0 as int), value.is_new)
        }),
{
}


} // verus!
