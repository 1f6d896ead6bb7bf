//! Pronunciation of a character and the record written for it.
use vstd::prelude::*;
use crate::error::ScrapeError;
use crate::number::{decimal_text, u32_text};
use crate::row::RowFields;
use pinyin::ToPinyinMulti;

verus! {

/// The tone-marked readings that the pinyin tables give a character, in
/// their order there, or `None` where the character has no entry.
pub uninterp spec fn tone_readings(c: char) -> Option<Seq<Seq<char>>>;

/// Relies on pinyin's `ToPinyinMulti` for `char` and `Pinyin::with_tone`:
/// every reading of the character with tone marks. An entry always holds at
/// least one reading (`PinyinMulti::count` is one more than its other readings).
#[verifier::external_body]
fn char_readings(c: char) -> (r: Option<Vec<String>>)
    ensures
        r is None ==> tone_readings(c) is None,
        r is Some ==> tone_readings(c) == Some(r->Some_0@.map_values(|s: String| s@))
            && r->Some_0@.len() >= 1,
{
    c.to_pinyin_multi().map(|m| m.into_iter().map(|p| p.with_tone().to_string()).collect())
}

/// The readings joined by `", "`.
pub open spec fn joined(rs: Seq<Seq<char>>) -> Seq<char>
    decreases rs.len(),
{
    if rs.len() == 0 {
        Seq::empty()
    } else if rs.len() == 1 {
        rs[0]
    } else {
        joined(rs.drop_last()) + seq![',', ' '] + rs.last()
    }
}

/// The pronunciation field of a character: its readings joined, or `None`
/// where it is empty or has no readings.
pub open spec fn pronunciation_of(hanzi: Seq<char>) -> Option<Seq<char>> {
    if hanzi.len() == 0 {
        None
    } else {
        match tone_readings(hanzi[0]) {
            Some(rs) => if rs.len() > 0 {
                Some(joined(rs))
            } else {
                None
            },
            None => None,
        }
    }
}

/// Joins readings with `", "`.
pub fn join_readings(readings: &Vec<String>) -> (r: String)
    ensures
        r@ == joined(readings@.map_values(|s: String| s@)),
{
    let ghost rs = readings@.map_values(|s: String| s@);
    let mut out = String::new();
    let mut i: usize = 0;
    while i < readings.len()
        invariant
            i <= readings@.len(),
            rs == readings@.map_values(|s: String| s@),
            out@ == joined(rs.subrange(0, i as int)),
        decreases readings@.len() - i,
    {
        assert(rs.subrange(0, i + 1).drop_last() =~= rs.subrange(0, i as int));
        if i > 0 {
            out.append(", ");
        } else {
            assert(rs.subrange(0, 0) =~= Seq::<Seq<char>>::empty());
        }
        out.append(readings[i].as_str());
        proof {
            reveal_strlit(", ");
            let next = rs.subrange(0, i + 1);
            assert(next.last() == readings@[i as int]@);
            if i == 0 {
                assert(next.len() == 1);
                assert(out@ =~= next[0]);
            } else {
                assert(out@ =~= joined(next.drop_last()) + seq![',', ' '] + next.last());
            }
        }
        i = i + 1;
    }
    assert(rs.subrange(0, i as int) =~= rs);
    out
}

/// The pronunciation of a character: the tone-marked readings of its first
/// character, joined by `", "`. A character without readings is fatal.
pub fn resolve_pronunciation(hanzi: &String) -> (r: Result<String, ScrapeError>)
    ensures
        match pronunciation_of(hanzi@) {
            Some(p) => r is Ok && r->Ok_0@ == p,
            None => r == Err::<String, ScrapeError>(ScrapeError::NoReadings),
        },
{
    if hanzi.as_str().unicode_len() == 0 {
        return Err(ScrapeError::NoReadings);
    }
    let c = hanzi.as_str().get_char(0);
    match char_readings(c) {
        Some(readings) => Ok(join_readings(&readings)),
        None => Err(ScrapeError::NoReadings),
    }
}

/// A row that will be written once its script variants are known.
#[derive(Debug)]
pub struct PendingRecord {
    pub fields: RowFields,
    pub pronunciation: String,
}

/// One output record.
#[derive(Debug)]
pub struct CharacterRecord {
    pub hanzi: String,
    pub traditional: String,
    pub shinjitai: String,
    pub pronunciation: String,
    pub hsk_level: u32,
    pub standard_index: u32,
    pub frequency_rank: u32,
}

/// The output line of a record: its seven fields in order, separated by tabs,
/// ended by a newline.
pub open spec fn line_of(r: CharacterRecord) -> Seq<char> {
    r.hanzi@ + seq!['\t'] + r.traditional@ + seq!['\t'] + r.shinjitai@ + seq!['\t']
        + r.pronunciation@ + seq!['\t'] + decimal_text(r.hsk_level as nat) + seq!['\t']
        + decimal_text(r.standard_index as nat) + seq!['\t'] + decimal_text(
        r.frequency_rank as nat,
    ) + seq!['\n']
}

impl PendingRecord {
    /// The record, given the traditional form of the character and the
    /// shinjitai form of that traditional form.
    pub fn into_record(self, traditional: String, shinjitai: String) -> (r: CharacterRecord)
        ensures
            r.hanzi == self.fields.hanzi,
            r.traditional == traditional,
            r.shinjitai == shinjitai,
            r.pronunciation == self.pronunciation,
            r.hsk_level == self.fields.hsk_level,
            r.standard_index == self.fields.standard_index,
            r.frequency_rank == self.fields.frequency_rank,
    {
        CharacterRecord {
            hanzi: self.fields.hanzi,
            traditional,
            shinjitai,
            pronunciation: self.pronunciation,
            hsk_level: self.fields.hsk_level,
            standard_index: self.fields.standard_index,
            frequency_rank: self.fields.frequency_rank,
        }
    }
}

impl CharacterRecord {
    /// The output line of the record.
    pub fn to_line(&self) -> (r: String)
        ensures
            r@ == line_of(*self),
    {
        proof {
            reveal_strlit("\t");
            reveal_strlit("\n");
        }
        let mut s = self.hanzi.clone();
        s.append("\t");
        s.append(self.traditional.as_str());
        s.append("\t");
        s.append(self.shinjitai.as_str());
        s.append("\t");
        s.append(self.pronunciation.as_str());
        s.append("\t");
        s.append(u32_text(self.hsk_level).as_str());
        s.append("\t");
        s.append(u32_text(self.standard_index).as_str());
        s.append("\t");
        s.append(u32_text(self.frequency_rank).as_str());
        s.append("\n");
        s
    }
}

} // verus!
