//! Destination paths and endpoint URLs, built from plain values.
use vstd::prelude::*;
use crate::dates::YearMonth;
use crate::numbers::{dec_str, dec_str_signed, i64_to_string, u64_to_string};

verus! {

/// The directory one item lands in: `<output>/<name>/<year>-<month>`.
pub open spec fn dir_path(out: Seq<char>, name: Seq<char>, d: YearMonth) -> Seq<char> {
    out + "/"@ + name + "/"@ + dec_str(d.year as nat) + "-"@ + dec_str(d.month as nat)
}

/// The file one item is written to: `<dir>/<pid>.jpg`.
pub open spec fn file_path(dir: Seq<char>, pid: Seq<char>) -> Seq<char> {
    dir + "/"@ + pid + ".jpg"@
}

/// The listing endpoint for one page: account id plus the cursor, which is
/// omitted entirely when empty (the first page).
pub open spec fn listing_url(uid: i64, cursor: Seq<char>) -> Seq<char> {
    "https://weibo.com/ajax/profile/getImageWall?uid="@ + dec_str_signed(uid as int) + (
    if cursor.len() == 0 {
        Seq::<char>::empty()
    } else {
        "&sinceid="@ + cursor
    })
}

/// The user-info endpoint for one account id.
pub open spec fn user_info_url(uid: i64) -> Seq<char> {
    "https://weibo.com/ajax/profile/info?uid="@ + dec_str_signed(uid as int)
}

/// The image endpoint for one item under a size variant.
pub open spec fn image_url(variant: Seq<char>, pid: Seq<char>) -> Seq<char> {
    "https://wx1.sinaimg.cn/"@ + variant + "/"@ + pid + ".jpg"@
}

/// Builds the destination directory for an item.
pub fn build_dir_path(out: &str, name: &str, d: YearMonth) -> (r: String)
    ensures
        r@ == dir_path(out@, name@, d),
{
    let mut r = String::from_str(out);
    r.append("/");
    r.append(name);
    r.append("/");
    r.append(u64_to_string(d.year as u64).as_str());
    r.append("-");
    r.append(u64_to_string(d.month as u64).as_str());
    proof {
        assert(r@ =~= dir_path(out@, name@, d));
    }
    r
}

/// Builds the destination file path for an item.
pub fn build_file_path(dir: &str, pid: &str) -> (r: String)
    ensures
        r@ == file_path(dir@, pid@),
{
    let mut r = String::from_str(dir);
    r.append("/");
    r.append(pid);
    r.append(".jpg");
    proof {
        assert(r@ =~= file_path(dir@, pid@));
    }
    r
}

/// Builds the listing-endpoint URL for one page fetch.
pub fn build_listing_url(uid: i64, cursor: &str) -> (r: String)
    ensures
        r@ == listing_url(uid, cursor@),
{
    let mut r = String::from_str("https://weibo.com/ajax/profile/getImageWall?uid=");
    r.append(i64_to_string(uid).as_str());
    if !cursor_is_empty(cursor) {
        r.append("&sinceid=");
        r.append(cursor);
    }
    proof {
        assert(r@ =~= listing_url(uid, cursor@));
    }
    r
}

/// Builds the user-info-endpoint URL.
pub fn build_user_info_url(uid: i64) -> (r: String)
    ensures
        r@ == user_info_url(uid),
{
    let mut r = String::from_str("https://weibo.com/ajax/profile/info?uid=");
    r.append(i64_to_string(uid).as_str());
    proof {
        assert(r@ =~= user_info_url(uid));
    }
    r
}

/// Builds the image-endpoint URL for one item.
pub fn build_image_url(variant: &str, pid: &str) -> (r: String)
    ensures
        r@ == image_url(variant@, pid@),
{
    let mut r = String::from_str("https://wx1.sinaimg.cn/");
    r.append(variant);
    r.append("/");
    r.append(pid);
    r.append(".jpg");
    proof {
        assert(r@ =~= image_url(variant@, pid@));
    }
    r
}

/// The string is empty.
fn cursor_is_empty(s: &str) -> (r: bool)
    ensures
        r == (s@.len() == 0),
{
    s.unicode_len() == 0
}

} // verus!
