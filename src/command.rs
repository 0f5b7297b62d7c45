use vstd::prelude::*;

verus! {

/// Size in bytes of one [`DrawCommand`] as the GPU reads it: five `u32` fields.
pub const COMMAND_SIZE: u64 = 20;

/// Number of 32-bit words in one encoded [`DrawCommand`].
pub const COMMAND_WORDS: usize = 5;

/// One indirect draw record, in the field order the graphics API reads it.
#[derive(Clone, Copy, Debug, PartialEq, Eq, Structural)]
pub struct DrawCommand {
    pub vertex_count: u32,
    pub instance_count: u32,
    pub base_index: u32,
    pub vertex_offset: u32,
    pub base_instance: u32,
}

/// The words of one record, in wire order.
pub open spec fn command_words(c: DrawCommand) -> Seq<u32> {
    seq![c.vertex_count, c.instance_count, c.base_index, c.vertex_offset, c.base_instance]
}

/// The words of a sequence of records, each record's five words in turn.
pub open spec fn commands_words(cs: Seq<DrawCommand>) -> Seq<u32>
    decreases cs.len(),
{
    if cs.len() == 0 {
        Seq::empty()
    } else {
        commands_words(cs.drop_last()) + command_words(cs.last())
    }
}

proof fn lemma_commands_words_len(cs: Seq<DrawCommand>)
    ensures
        commands_words(cs).len() == 5 * cs.len(),
    decreases cs.len(),
{
    if cs.len() > 0 {
        lemma_commands_words_len(cs.drop_last());
    }
}

/// Lays out `commands` as the word stream of an indirect-command buffer:
/// record `i` occupies words `5 * i .. 5 * i + 5`, fields in declaration order.
pub fn encode_commands(commands: &Vec<DrawCommand>) -> (r: Vec<u32>)
    requires
        commands@.len() * 5 <= usize::MAX,
    ensures
        r@ == commands_words(commands@),
        r@.len() == 5 * commands@.len(),
        forall|i: int|
            #![trigger commands@[i]]
            0 <= i < commands@.len() ==> r@.subrange(5 * i, 5 * i + 5) == command_words(
                commands@[i],
            ),
{
    let mut r: Vec<u32> = Vec::new();
    let mut i: usize = 0;
    while i < commands.len()
        invariant
            i <= commands@.len(),
            r@ == commands_words(commands@.subrange(0, i as int)),
        decreases commands@.len() - i,
    {
        let c = commands[i];
        r.push(c.vertex_count);
        r.push(c.instance_count);
        r.push(c.base_index);
        r.push(c.vertex_offset);
        r.push(c.base_instance);
        proof {
            let s = commands@.subrange(0, i as int + 1);
            assert(s.drop_last() == commands@.subrange(0, i as int));
            assert(r@ == commands_words(s));
        }
        i = i + 1;
    }
    assert(commands@.subrange(0, commands@.len() as int) == commands@);
    proof {
        lemma_commands_words_len(commands@);
        assert forall|i: int|
            #![trigger commands@[i]]
            0 <= i < commands@.len() implies r@.subrange(5 * i, 5 * i + 5) == command_words(
                commands@[i],
            ) by {
            lemma_words_at(commands@, i);
        }
    }
    r
}

/// Record `i` of a sequence stands at words `5 * i .. 5 * i + 5` of its encoding.
proof fn lemma_words_at(cs: Seq<DrawCommand>, i: int)
    requires
        0 <= i < cs.len(),
    ensures
        commands_words(cs).subrange(5 * i, 5 * i + 5) == command_words(cs[i]),
    decreases cs.len(),
{
    lemma_commands_words_len(cs.drop_last());
    if i < cs.len() - 1 {
        lemma_words_at(cs.drop_last(), i);
        assert(commands_words(cs).subrange(5 * i, 5 * i + 5) == commands_words(
            cs.drop_last(),
        ).subrange(5 * i, 5 * i + 5));
    } else {
        assert(commands_words(cs).subrange(5 * i, 5 * i + 5) =~= command_words(cs[i]));
    }
}

} // verus!
