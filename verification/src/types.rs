//! The wire-shaped records of the listing and user-info endpoints, the
//! command-line configuration record, and their mathematical views.
use vstd::prelude::*;

verus! {

/// One entry of a listing page: the image id, the directory the download
/// lands in (filled by the producer), and the item's own year/month fields,
/// which may be empty.
#[derive(Debug, Clone)]
pub struct ImageItem {
    pub pid: String,
    pub mid: String,
    pub timeline_month: String,
    pub timeline_year: String,
}

/// The payload of one listing page: the next cursor and the page's items.
#[derive(Debug, Clone)]
pub struct ImageWallData {
    pub since_id: String,
    pub list: Vec<ImageItem>,
}

/// One listing-page response: a status flag, an optional payload, and the
/// one-time trailer banner.
#[derive(Debug, Clone)]
pub struct ImageWallRes {
    pub data: Option<ImageWallData>,
    pub bottom_tips_visible: bool,
    pub bottom_tips_text: String,
    pub ok: i32,
}

/// The account's display name, as the user-info endpoint reports it.
#[derive(Debug, Clone)]
pub struct UserInfo {
    pub screen_name: String,
}

/// The payload of the user-info endpoint.
#[derive(Debug, Clone)]
pub struct UserInfoData {
    pub user: UserInfo,
}

/// The user-info response: a status flag and an optional payload.
#[derive(Debug, Clone)]
pub struct UserInfoRes {
    pub data: Option<UserInfoData>,
    pub ok: i32,
}

/// The run's configuration: account id, output root, optional `YYYY/MM`
/// range bounds, worker count, retry budget, and the image size variant.
#[derive(Debug, Clone)]
pub struct Args {
    pub uid: i64,
    pub output: String,
    pub start: Option<String>,
    pub end: Option<String>,
    pub concurrency: u32,
    pub retry: u32,
    pub image_type: String,
}

/// The mathematical shadow of an [`ImageItem`].
pub struct ItemView {
    pub pid: Seq<char>,
    pub mid: Seq<char>,
    pub timeline_month: Seq<char>,
    pub timeline_year: Seq<char>,
}

impl View for ImageItem {
    type V = ItemView;

    open spec fn view(&self) -> ItemView {
        ItemView {
            pid: self.pid@,
            mid: self.mid@,
            timeline_month: self.timeline_month@,
            timeline_year: self.timeline_year@,
        }
    }
}

/// The views of a sequence of items.
pub open spec fn views_of(s: Seq<ImageItem>) -> Seq<ItemView> {
    s.map_values(|it: ImageItem| it@)
}

/// The mathematical shadow of an [`ImageWallData`].
pub struct WallDataView {
    pub since_id: Seq<char>,
    pub list: Seq<ItemView>,
}

impl View for ImageWallData {
    type V = WallDataView;

    open spec fn view(&self) -> WallDataView {
        WallDataView { since_id: self.since_id@, list: views_of(self.list@) }
    }
}

/// The mathematical shadow of an [`ImageWallRes`].
pub struct WallResView {
    pub ok: i32,
    pub data: Option<WallDataView>,
    pub bottom_tips_visible: bool,
    pub bottom_tips_text: Seq<char>,
}

impl View for ImageWallRes {
    type V = WallResView;

    open spec fn view(&self) -> WallResView {
        WallResView {
            ok: self.ok,
            data: match self.data {
                Some(d) => Some(d@),
                None => None,
            },
            bottom_tips_visible: self.bottom_tips_visible,
            bottom_tips_text: self.bottom_tips_text@,
        }
    }
}

/// The views of a sequence of listing pages.
pub open spec fn page_views_of(s: Seq<ImageWallRes>) -> Seq<WallResView> {
    s.map_values(|p: ImageWallRes| p@)
}

} // verus!
