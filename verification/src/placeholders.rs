//! Every input placeholder in the crate, in one place.
//!
//! # They must all be single-line
//!
//! The input widget lays out an empty input's placeholder line by line with the font
//! runs of the whole text, and a placeholder that spans lines ends the process as soon
//! as it is drawn. Values may span lines; only placeholders may not. Multi-line guidance
//! belongs in a field's hint text.

use vstd::prelude::*;
use crate::text::{is_white_space, trim_start, trimmed};

verus! {

pub const CONNECTION_NAME: &'static str = "Prod S3";

pub const CONNECTION_URI: &'static str = "s3://bucket/prefix";

pub const CONNECTION_OPTIONS: &'static str = "region = ap-northeast-1";

pub const CONNECTION_CREDENTIALS: &'static str = "access_key_id = AKIA…";

pub const NEW_FOLDER: &'static str = "新文件夹";

pub const RENAME: &'static str = "新名称";

pub const FILTER: &'static str = "过滤当前目录";

/// Every placeholder. A new one is added here.
pub open spec fn placeholders() -> Seq<&'static str> {
    seq![
        CONNECTION_NAME,
        CONNECTION_URI,
        CONNECTION_OPTIONS,
        CONNECTION_CREDENTIALS,
        NEW_FOLDER,
        RENAME,
        FILTER,
    ]
}

pub fn all() -> (r: Vec<&'static str>)
    ensures
        r@ == placeholders(),
{
    let r: Vec<&'static str> = vec![
        CONNECTION_NAME,
        CONNECTION_URI,
        CONNECTION_OPTIONS,
        CONNECTION_CREDENTIALS,
        NEW_FOLDER,
        RENAME,
        FILTER,
    ];
    assert(r@ =~= placeholders());
    r
}

/// No placeholder spans lines.
pub proof fn law_placeholders_are_single_line(i: int, k: int)
    requires
        0 <= i < placeholders().len(),
        0 <= k < placeholders()[i]@.len(),
    ensures
        placeholders()[i]@[k] != '\n',
        placeholders()[i]@[k] != '\r',
{
    reveal_strlit("Prod S3");
    reveal_strlit("s3://bucket/prefix");
    reveal_strlit("region = ap-northeast-1");
    reveal_strlit("access_key_id = AKIA…");
    reveal_strlit("新文件夹");
    reveal_strlit("新名称");
    reveal_strlit("过滤当前目录");
}

/// No placeholder is blank.
pub proof fn law_placeholders_are_not_blank(i: int)
    requires
        0 <= i < placeholders().len(),
    ensures
        trimmed(placeholders()[i]@).len() > 0,
{
    reveal_strlit("Prod S3");
    reveal_strlit("s3://bucket/prefix");
    reveal_strlit("region = ap-northeast-1");
    reveal_strlit("access_key_id = AKIA…");
    reveal_strlit("新文件夹");
    reveal_strlit("新名称");
    reveal_strlit("过滤当前目录");
    let s = placeholders()[i]@;
    assert(!is_white_space(s[0]));
    assert(trim_start(s) == s);
    lemma_trim_end_keeps(s);
}

/// Trimming the end of a text that starts with something else than white space leaves
/// something.
proof fn lemma_trim_end_keeps(s: Seq<char>)
    requires
        s.len() > 0,
        !is_white_space(s[0]),
    ensures
        crate::text::trim_end(s).len() > 0,
    decreases s.len(),
{
    if is_white_space(s.last()) && s.len() > 1 {
        lemma_trim_end_keeps(s.drop_last());
    }
}

/// Each placeholder is an example of what its input takes.
pub proof fn law_placeholder_words()
    ensures
        CONNECTION_NAME@ == "Prod S3"@,
        CONNECTION_URI@ == "s3://bucket/prefix"@,
        CONNECTION_OPTIONS@ == "region = ap-northeast-1"@,
        CONNECTION_CREDENTIALS@ == "access_key_id = AKIA…"@,
        NEW_FOLDER@ == "新文件夹"@,
        RENAME@ == "新名称"@,
        FILTER@ == "过滤当前目录"@,
        placeholders().len() == 7,
        placeholders().contains(CONNECTION_NAME),
        placeholders().contains(CONNECTION_URI),
        placeholders().contains(CONNECTION_OPTIONS),
        placeholders().contains(CONNECTION_CREDENTIALS),
        placeholders().contains(NEW_FOLDER),
        placeholders().contains(RENAME),
        placeholders().contains(FILTER),
{
    let all = placeholders();
    assert(all[0] == CONNECTION_NAME);
    assert(all[1] == CONNECTION_URI);
    assert(all[2] == CONNECTION_OPTIONS);
    assert(all[3] == CONNECTION_CREDENTIALS);
    assert(all[4] == NEW_FOLDER);
    assert(all[5] == RENAME);
    assert(all[6] == FILTER);
}

} // verus!
