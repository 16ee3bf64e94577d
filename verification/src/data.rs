//! The built-in symbol pools: single characters and multi-character words,
//! each with its romanized pronunciation (tone digits included).

use vstd::prelude::*;

use crate::level::SymbolEntry;

verus! {

/// One symbol entry from string data.
pub(crate) fn entry(hanzi: &str, pinyin: Vec<char>) -> (r: SymbolEntry)
    ensures
        r.hanzi@ == hanzi@,
        r.pinyin@ == pinyin@,
{
    SymbolEntry::new(String::from_str(hanzi), pinyin)
}

/// The single-character pool: twelve entries, each pronunciation one
/// syllable with its tone digit.
pub fn single_hanzi() -> (r: Vec<SymbolEntry>)
    ensures
        r@.len() == 12,
{
    let mut v: Vec<SymbolEntry> = Vec::new();
    v.push(entry("你", vec!['n', 'i', '3']));
    v.push(entry("好", vec!['h', 'a', 'o', '3']));
    v.push(entry("猫", vec!['m', 'a', 'o', '1']));
    v.push(entry("学", vec!['x', 'u', 'e', '2']));
    v.push(entry("汉", vec!['h', 'a', 'n', '4']));
    v.push(entry("字", vec!['z', 'i', '4']));
    v.push(entry("黑", vec!['h', 'e', 'i', '1']));
    v.push(entry("鱼", vec!['y', 'u', '2']));
    v.push(entry("火", vec!['h', 'u', 'o', '3']));
    v.push(entry("山", vec!['s', 'h', 'a', 'n', '1']));
    v.push(entry("水", vec!['s', 'h', 'u', 'i', '3']));
    v.push(entry("月", vec!['y', 'u', 'e', '4']));
    v
}

/// The multi-character pool: seven words, each pronunciation carrying one
/// tone digit per syllable.
pub fn multi_hanzi() -> (r: Vec<SymbolEntry>)
    ensures
        r@.len() == 7,
{
    let mut v: Vec<SymbolEntry> = Vec::new();
    v.push(entry("你好", vec!['n', 'i', '3', 'h', 'a', 'o', '3']));
    v.push(entry("汉字", vec!['h', 'a', 'n', '4', 'z', 'i', '4']));
    v.push(entry("黑猫", vec!['h', 'e', 'i', '1', 'm', 'a', 'o', '1']));
    v.push(entry("学习", vec!['x', 'u', 'e', '2', 'x', 'i', '2']));
    v.push(entry("火山", vec!['h', 'u', 'o', '3', 's', 'h', 'a', 'n', '1']));
    v.push(entry("山水", vec!['s', 'h', 'a', 'n', '1', 's', 'h', 'u', 'i', '3']));
    v.push(entry("月鱼", vec!['y', 'u', 'e', '4', 'y', 'u', '2']));
    v
}

} // verus!
