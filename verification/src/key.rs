//! The key under which the layout of a section is kept.

use crate::layout::GlyphPositioner;
use crate::section::{RunView, SectionText, VariedSection, VariedSectionView};
use std::collections::hash_map::DefaultHasher;
use std::hash::Hasher;
use vstd::bytes::{spec_u64_to_le_bytes, u64_to_le_bytes};
use vstd::prelude::*;
use vstd::std_specs::hash::DefaultHasherAdditionalSpecFns;
use vstd::string::StringSliceAdditionalSpecFns;
use vstd::utf8::encode_utf8;

verus! {

/// A number as it enters a key: 64 bits, lowest byte first. A signed number
/// enters by its bit pattern.
pub open spec fn number(v: u64) -> Seq<u8> {
    spec_u64_to_le_bytes(v)
}

/// What a run adds to a key: its text and each of its properties.
pub open spec fn run_key(run: RunView) -> Seq<Seq<u8>> {
    seq![
        encode_utf8(run.text),
        number(run.scale.x as u64),
        number(run.scale.y as u64),
        seq![run.color.r, run.color.g, run.color.b, run.color.a],
        number(run.font_id.0 as u64),
    ]
}

/// What the first `n` of `runs` add to a key.
pub open spec fn runs_key(runs: Seq<RunView>, n: int) -> Seq<Seq<u8>>
    decreases n,
{
    if n <= 0 {
        Seq::empty()
    } else {
        runs_key(runs, n - 1) + run_key(runs[n - 1])
    }
}

/// What a section adds to a key: its place, its bounds, its depth, its own
/// layout, the number of its runs and each run.
pub open spec fn section_key(section: VariedSectionView) -> Seq<Seq<u8>> {
    seq![
        number(section.screen_position.x as u64),
        number(section.screen_position.y as u64),
        number(section.bounds.width as u64),
        number(section.bounds.height as u64),
        number(section.z as u64),
        number(section.text.len() as u64),
    ] + section.layout.key_bytes() + runs_key(section.text, section.text.len() as int)
}

/// The key of a section laid out by `layout`: the hash of what the section
/// and the layout add to it. Equal sections with equal layouts have equal
/// keys; two different ones may share a key.
pub open spec fn layout_key<L: GlyphPositioner>(section: VariedSectionView, layout: L) -> u64 {
    DefaultHasher::spec_finish(section_key(section) + layout.key_bytes())
}

/// Feeds `state` the number `v`.
fn write_number(state: &mut DefaultHasher, v: u64)
    ensures
        final(state)@ == old(state)@ + seq![number(v)],
{
    let bytes = u64_to_le_bytes(v);
    state.write(bytes.as_slice());
}

/// Feeds `state` what the run adds to a key.
fn write_run(state: &mut DefaultHasher, run: &SectionText)
    ensures
        final(state)@ == old(state)@ + run_key(run@),
{
    state.write(run.text.as_bytes());
    write_number(state, run.scale.x as u64);
    write_number(state, run.scale.y as u64);
    let mut color: Vec<u8> = Vec::new();
    color.push(run.color.r);
    color.push(run.color.g);
    color.push(run.color.b);
    color.push(run.color.a);
    assert(color@ == seq![run.color.r, run.color.g, run.color.b, run.color.a]);
    state.write(color.as_slice());
    write_number(state, run.font_id.0 as u64);
}

/// The key of the section laid out by `layout`.
pub fn hash_section<L: GlyphPositioner>(section: &VariedSection, layout: &L) -> (key: u64)
    ensures
        key == layout_key(section@, *layout),
{
    let mut state = DefaultHasher::new();
    write_number(&mut state, section.screen_position.x as u64);
    write_number(&mut state, section.screen_position.y as u64);
    write_number(&mut state, section.bounds.width as u64);
    write_number(&mut state, section.bounds.height as u64);
    write_number(&mut state, section.z as u64);
    write_number(&mut state, section.text.len() as u64);
    let ghost head = state@;
    assert(head == seq![
        number(section.screen_position.x as u64),
        number(section.screen_position.y as u64),
        number(section.bounds.width as u64),
        number(section.bounds.height as u64),
        number(section.z as u64),
        number(section.text.len() as u64),
    ]);
    section.layout.write_key(&mut state);
    let ghost before_runs = state@;
    let mut i: usize = 0;
    while i < section.text.len()
        invariant
            i <= section.text.len(),
            state@ == before_runs + runs_key(section@.text, i as int),
        decreases section.text.len() - i,
    {
        let ghost written = state@;
        write_run(&mut state, &section.text[i]);
        i += 1;
        assert(written + run_key(section@.text[i - 1]) == before_runs + runs_key(
            section@.text,
            i as int,
        ));
    }
    layout.write_key(&mut state);
    state.finish()
}

} // verus!
