use crate::material::node::node::UniformContents;
use vstd::prelude::*;

verus! {

/// The alignment in bytes that a content asks of its offset in the uniform
/// buffer; zero for a texture, which takes no room there.
pub open spec fn align_of(contents: UniformContents) -> nat {
    match contents {
        UniformContents::Float { .. } => 4,
        UniformContents::Matrix4 { .. } => 64,
        UniformContents::Vector3 { .. } => 16,
        UniformContents::Texture { .. } => 0,
    }
}

/// The number of bytes a content occupies in the uniform buffer.
pub open spec fn byte_of(contents: UniformContents) -> nat {
    match contents {
        UniformContents::Float { .. } => 4,
        UniformContents::Matrix4 { .. } => 64,
        UniformContents::Vector3 { .. } => 12,
        UniformContents::Texture { .. } => 0,
    }
}

/// The least multiple of `align` that is not below `offset`; `offset`
/// itself where `align` is zero.
pub open spec fn align_up(offset: nat, align: nat) -> nat {
    if align == 0 {
        offset
    } else {
        (offset + (align - offset % align) % (align as int)) as nat
    }
}

/// The offset just behind the last field, once every content of
/// `contents` has been placed in order.
pub open spec fn packed_size(contents: Seq<UniformContents>) -> nat
    decreases contents.len(),
{
    if contents.len() == 0 {
        0
    } else {
        align_up(packed_size(contents.drop_last()), align_of(contents.last())) + byte_of(
            contents.last(),
        )
    }
}

/// The offset at which the content at position `i` is placed.
pub open spec fn offset_of(contents: Seq<UniformContents>, i: int) -> nat {
    align_up(packed_size(contents.take(i)), align_of(contents[i]))
}

/// The largest alignment among `contents`; zero where there is no field.
pub open spec fn max_align(contents: Seq<UniformContents>) -> nat
    decreases contents.len(),
{
    if contents.len() == 0 {
        0
    } else {
        let rest = max_align(contents.drop_last());
        let align = align_of(contents.last());
        if align > rest {
            align
        } else {
            rest
        }
    }
}

/// The size of the uniform buffer: the packed size, rounded up to the
/// largest alignment among the fields.
pub open spec fn buffer_size(contents: Seq<UniformContents>) -> nat {
    align_up(packed_size(contents), max_align(contents))
}

/// One field of the uniform buffer.
#[derive(Clone, Copy, Debug, PartialEq, Eq, Structural)]
pub struct UniformField {
    /// The position, among the contents laid out, of the content held here.
    pub index: usize,
    /// The offset of the field's first byte.
    pub offset: u64,
    /// The number of bytes the field occupies.
    pub size: u64,
}

/// A [`UniformField`] over unbounded numbers.
pub struct UniformFieldView {
    pub index: nat,
    pub offset: nat,
    pub size: nat,
}

impl View for UniformField {
    type V = UniformFieldView;

    open spec fn view(&self) -> UniformFieldView {
        UniformFieldView {
            index: self.index as nat,
            offset: self.offset as nat,
            size: self.size as nat,
        }
    }
}

/// The fields that `contents` give rise to, in order: one for each content
/// that is not a texture.
pub open spec fn fields_of(contents: Seq<UniformContents>) -> Seq<UniformFieldView>
    decreases contents.len(),
{
    if contents.len() == 0 {
        Seq::empty()
    } else if contents.last() is Texture {
        fields_of(contents.drop_last())
    } else {
        fields_of(contents.drop_last()).push(
            UniformFieldView {
                index: (contents.len() - 1) as nat,
                offset: offset_of(contents, contents.len() - 1),
                size: byte_of(contents.last()),
            },
        )
    }
}

/// The contents that a list of borrowed contents refers to.
pub open spec fn deref_all(contents: Seq<&UniformContents>) -> Seq<UniformContents> {
    Seq::new(contents.len(), |i: int| *contents[i])
}

/// The packed layout of a uniform buffer.
pub struct UniformLayout {
    fields: Vec<UniformField>,
    packed_size: u64,
    buffer_size: u64,
}

/// What a [`UniformLayout`] holds.
pub struct UniformLayoutView {
    pub fields: Seq<UniformFieldView>,
    pub packed_size: nat,
    pub buffer_size: nat,
}

impl View for UniformLayout {
    type V = UniformLayoutView;

    closed spec fn view(&self) -> UniformLayoutView {
        UniformLayoutView {
            fields: Seq::new(self.fields@.len(), |i: int| self.fields@[i]@),
            packed_size: self.packed_size as nat,
            buffer_size: self.buffer_size as nat,
        }
    }
}

/// The alignment in bytes of a content in the uniform buffer.
pub fn get_align(contents: &UniformContents) -> (align: u64)
    ensures
        align == align_of(*contents),
{
    match contents {
        UniformContents::Float { .. } => 4,
        UniformContents::Matrix4 { .. } => 64,
        UniformContents::Vector3 { .. } => 16,
        UniformContents::Texture { .. } => 0,
    }
}

/// The number of bytes of a content in the uniform buffer.
pub fn get_byte(contents: &UniformContents) -> (byte: u64)
    ensures
        byte == byte_of(*contents),
{
    match contents {
        UniformContents::Float { .. } => 4,
        UniformContents::Matrix4 { .. } => 64,
        UniformContents::Vector3 { .. } => 12,
        UniformContents::Texture { .. } => 0,
    }
}

/// Rounding up yields a multiple of the alignment, at or above the offset
/// and less than one alignment above it.
pub proof fn lemma_align_up(offset: nat, align: nat)
    ensures
        offset <= align_up(offset, align),
        align > 0 ==> align_up(offset, align) % align == 0,
        align > 0 ==> align_up(offset, align) < offset + align,
        align == 0 ==> align_up(offset, align) == offset,
{
    if align > 0 {
        let a = align as int;
        let o = offset as int;
        let r = o % a;
        assert(0 <= r < a) by (nonlinear_arith)
            requires
                r == o % a,
                a > 0,
        ;
        if r == 0 {
            assert((a - r) % a == 0) by (nonlinear_arith)
                requires
                    r == 0,
                    a > 0,
            ;
        } else {
            assert((a - r) % a == a - r) by (nonlinear_arith)
                requires
                    0 < r < a,
            ;
            assert((o + (a - r)) % a == 0) by (nonlinear_arith)
                requires
                    r == o % a,
                    0 < r < a,
            ;
        }
    }
}

/// Rounds `offset` up to a multiple of `align`.
fn round_up(offset: u64, align: u64) -> (r: u64)
    requires
        offset + align <= u64::MAX,
    ensures
        r == align_up(offset as nat, align as nat),
{
    proof {
        lemma_align_up(offset as nat, align as nat);
    }
    if align == 0 {
        offset
    } else {
        offset + (align - (offset % align)) % align
    }
}

/// Placing one more content adds at most its alignment and its size.
pub proof fn lemma_packed_size_bound(contents: Seq<UniformContents>)
    ensures
        packed_size(contents) <= 127 * contents.len(),
        max_align(contents) <= 64,
    decreases contents.len(),
{
    if contents.len() > 0 {
        lemma_packed_size_bound(contents.drop_last());
        lemma_align_up(packed_size(contents.drop_last()), align_of(contents.last()));
    }
}

/// The packed size does not shrink as contents are added.
pub proof fn lemma_packed_size_monotonic(contents: Seq<UniformContents>, i: int, j: int)
    requires
        0 <= i <= j <= contents.len(),
    ensures
        packed_size(contents.take(i)) <= packed_size(contents.take(j)),
    decreases j - i,
{
    if i < j {
        lemma_packed_size_monotonic(contents, i, j - 1);
        assert(contents.take(j).drop_last() =~= contents.take(j - 1));
        lemma_align_up(packed_size(contents.take(j - 1)), align_of(contents.take(j).last()));
    }
}

/// Whatever the contents, every field starts at a multiple of its own
/// alignment, and a later field starts at or behind the end of an earlier
/// one: offsets never decrease and fields never overlap. The last field
/// ends within the packed size, and the buffer size is the packed size
/// rounded up to the largest alignment.
pub proof fn lemma_offsets_aligned_and_ordered(contents: Seq<UniformContents>)
    ensures
        forall|i: int|
            0 <= i < contents.len() && align_of(contents[i]) > 0 ==> #[trigger] offset_of(
                contents,
                i,
            ) % align_of(contents[i]) == 0,
        forall|i: int, j: int|
            0 <= i < j < contents.len() ==> #[trigger] offset_of(contents, i) + byte_of(
                contents[i],
            ) <= #[trigger] offset_of(contents, j),
        forall|i: int|
            0 <= i < contents.len() ==> #[trigger] offset_of(contents, i) + byte_of(contents[i])
                <= packed_size(contents),
        packed_size(contents) <= buffer_size(contents),
        max_align(contents) > 0 ==> buffer_size(contents) % max_align(contents) == 0,
        max_align(contents) > 0 ==> buffer_size(contents) < packed_size(contents) + max_align(
            contents,
        ),
{
    assert forall|i: int| 0 <= i < contents.len() implies #[trigger] offset_of(contents, i)
        + byte_of(contents[i]) <= packed_size(contents) && (align_of(contents[i]) > 0
        ==> offset_of(contents, i) % align_of(contents[i]) == 0) by {
        lemma_align_up(packed_size(contents.take(i)), align_of(contents[i]));
        assert(contents.take(i + 1).drop_last() =~= contents.take(i));
        assert(contents.take(i + 1).last() == contents[i]);
        assert(packed_size(contents.take(i + 1)) == offset_of(contents, i) + byte_of(contents[i]));
        lemma_packed_size_monotonic(contents, i + 1, contents.len() as int);
        assert(contents.take(contents.len() as int) =~= contents);
    }
    assert forall|i: int, j: int| 0 <= i < j < contents.len() implies #[trigger] offset_of(
        contents,
        i,
    ) + byte_of(contents[i]) <= #[trigger] offset_of(contents, j) by {
        assert(contents.take(i + 1).drop_last() =~= contents.take(i));
        assert(contents.take(i + 1).last() == contents[i]);
        lemma_packed_size_monotonic(contents, i + 1, j);
        lemma_align_up(packed_size(contents.take(j)), align_of(contents[j]));
    }
    lemma_align_up(packed_size(contents), max_align(contents));
}

/// What is required of the field at position `k` among the fields of
/// `contents`: it stands for a content that is not a texture, at that
/// content's offset and with its size.
pub open spec fn field_matches(contents: Seq<UniformContents>, field: UniformFieldView) -> bool {
    &&& field.index < contents.len()
    &&& !(contents[field.index as int] is Texture)
    &&& field.offset == offset_of(contents, field.index as int)
    &&& field.size == byte_of(contents[field.index as int])
}

proof fn lemma_offset_of_prefix(contents: Seq<UniformContents>, i: int)
    requires
        0 <= i < contents.len() - 1,
    ensures
        offset_of(contents.drop_last(), i) == offset_of(contents, i),
{
    assert(contents.drop_last().take(i) =~= contents.take(i));
}

/// Each field stands for a content that is not a texture, at that
/// content's offset and with its size, and the fields come in the order of
/// the contents.
pub proof fn lemma_fields_of(contents: Seq<UniformContents>)
    ensures
        fields_of(contents).len() <= contents.len(),
        forall|k: int|
            0 <= k < fields_of(contents).len() ==> field_matches(
                contents,
                #[trigger] fields_of(contents)[k],
            ),
        forall|j: int, k: int|
            0 <= j < k < fields_of(contents).len() ==> (#[trigger] fields_of(contents)[j]).index < (
            #[trigger] fields_of(contents)[k]).index,
    decreases contents.len(),
{
    if contents.len() > 0 {
        let rest = contents.drop_last();
        let all = fields_of(contents);
        let before = fields_of(rest);
        lemma_fields_of(rest);
        assert forall|k: int| 0 <= k < before.len() implies field_matches(
            contents,
            #[trigger] before[k],
        ) by {
            assert(field_matches(rest, before[k]));
            lemma_offset_of_prefix(contents, before[k].index as int);
        }
        if contents.last() is Texture {
            assert(all == before);
        } else {
            let field = UniformFieldView {
                index: (contents.len() - 1) as nat,
                offset: offset_of(contents, contents.len() - 1),
                size: byte_of(contents.last()),
            };
            assert(all == before.push(field));
            assert(field_matches(contents, field));
            assert forall|j: int, k: int| 0 <= j < k < all.len() implies (#[trigger] all[j]).index
                < (#[trigger] all[k]).index by {
                if k == before.len() {
                    assert(field_matches(rest, before[j]));
                }
            }
        }
    }
}

/// Every content that is not a texture has a field.
pub proof fn lemma_fields_of_complete(contents: Seq<UniformContents>, i: int)
    requires
        0 <= i < contents.len(),
        !(contents[i] is Texture),
    ensures
        exists|k: int|
            0 <= k < fields_of(contents).len() && (#[trigger] fields_of(contents)[k]).index == i,
    decreases contents.len(),
{
    let rest = contents.drop_last();
    let all = fields_of(contents);
    let before = fields_of(rest);
    if i < contents.len() - 1 {
        lemma_fields_of_complete(rest, i);
        let k = choose|k: int| 0 <= k < before.len() && (#[trigger] before[k]).index == i;
        assert(all[k] == before[k]);
    } else {
        assert(all[all.len() - 1].index == i);
    }
}

impl UniformLayout {
    /// Lays out `contents` in order. Each content that is not a texture is
    /// placed at the next multiple of its alignment at or behind the end of
    /// the field before it; the buffer size is the end of the last field,
    /// rounded up to the largest alignment among the fields.
    pub fn new(contents: &Vec<&UniformContents>) -> (layout: Self)
        requires
            127 * contents@.len() + 64 <= u64::MAX,
        ensures
            layout@.fields == fields_of(deref_all(contents@)),
            layout@.packed_size == packed_size(deref_all(contents@)),
            layout@.buffer_size == buffer_size(deref_all(contents@)),
    {
        let ghost all = deref_all(contents@);
        let mut fields: Vec<UniformField> = Vec::new();
        let mut offset: u64 = 0;
        let mut largest: u64 = 0;
        let mut i: usize = 0;
        while i < contents.len()
            invariant
                0 <= i <= contents@.len(),
                all == deref_all(contents@),
                127 * contents@.len() + 64 <= u64::MAX,
                offset == packed_size(all.take(i as int)),
                largest == max_align(all.take(i as int)),
                fields@.len() == fields_of(all.take(i as int)).len(),
                forall|k: int| 0 <= k < fields@.len() ==> (#[trigger] fields@[k])@ == fields_of(
                    all.take(i as int),
                )[k],
            decreases contents@.len() - i,
        {
            let c = contents[i];
            proof {
                lemma_packed_size_bound(all.take(i as int));
                assert(all.take(i + 1).drop_last() =~= all.take(i as int));
                assert(all.take(i + 1).last() == *c);
                lemma_align_up(offset as nat, align_of(*c));
            }
            let align = get_align(c);
            let start = round_up(offset, align);
            let size = get_byte(c);
            match c {
                UniformContents::Texture { .. } => {},
                _ => {
                    fields.push(UniformField { index: i, offset: start, size });
                },
            }
            if align > largest {
                largest = align;
            }
            offset = start + size;
            i += 1;
        }
        proof {
            assert(all.take(i as int) =~= all);
            lemma_packed_size_bound(all);
        }
        let total = round_up(offset, largest);
        let layout = UniformLayout { fields, packed_size: offset, buffer_size: total };
        assert(layout@.fields =~= fields_of(all));
        layout
    }

    /// The fields, in the order of the contents they hold.
    pub fn fields(&self) -> (fields: &Vec<UniformField>)
        ensures
            fields@.len() == self@.fields.len(),
            forall|k: int| 0 <= k < fields@.len() ==> (#[trigger] fields@[k])@ == self@.fields[k],
    {
        &self.fields
    }

    /// The offset just behind the last field.
    pub fn packed_size(&self) -> (size: u64)
        ensures
            size == self@.packed_size,
    {
        self.packed_size
    }

    /// The size of the buffer that holds the fields.
    pub fn buffer_size(&self) -> (size: u64)
        ensures
            size == self@.buffer_size,
    {
        self.buffer_size
    }
}

} // verus!
