//! Identifying an input file against the comment service: the file hash
//! and match parameters it sends, and the data it gets back.

use vstd::prelude::*;
use vstd::string::StringExecFns;

use crate::fmt::{dec_str, hex2, u64_to_string};
use crate::text::push_char;

verus! {

/// How a file should be matched by the service.
#[derive(Clone, Copy, Debug, PartialEq, Eq, Structural)]
pub enum MatchMode {
    HashAndFileName,
    FileNameOnly,
    HashOnly,
}

/// The body of a match request.
pub struct MatchParamsJson {
    pub file_name: String,
    pub file_hash: String,
    pub file_size: String,
    pub match_mode: Option<MatchMode>,
}

/// A match request together with the name used for interactive search.
pub struct MatchParams {
    pub match_name: String,
    pub json: MatchParamsJson,
}

/// The body of a request accepting a match.
pub struct MatchAcceptParamsJson {
    pub hash: Option<String>,
    pub file_name: Option<String>,
}

/// One episode found by a search.
pub struct SearchAnimeEpisodeJson {
    pub episode_id: i64,
    pub episode_title: String,
}

/// One series found by a search.
pub struct SearchAnimeJson {
    pub anime_id: i64,
    pub anime_title: String,
    pub type_: String,
    pub type_description: String,
    pub episodes: Vec<SearchAnimeEpisodeJson>,
}

/// A whole search response.
pub struct SearchJson {
    pub has_more: bool,
    pub error_code: i64,
    pub success: bool,
    pub error_message: String,
    pub animes: Vec<SearchAnimeJson>,
}

/// One matched episode, as chosen for a file.
pub struct AnimeEpisodeItem {
    pub anime_id: i64,
    pub anime_title: String,
    pub episode_id: i64,
    pub episode_title: String,
}

/// The mathematical image of an [`AnimeEpisodeItem`].
#[verifier::ext_equal]
pub ghost struct EpisodeChoice {
    pub anime_id: int,
    pub anime_title: Seq<char>,
    pub episode_id: int,
    pub episode_title: Seq<char>,
}

impl View for AnimeEpisodeItem {
    type V = EpisodeChoice;

    open spec fn view(&self) -> EpisodeChoice {
        EpisodeChoice {
            anime_id: self.anime_id as int,
            anime_title: self.anime_title@,
            episode_id: self.episode_id as int,
            episode_title: self.episode_title@,
        }
    }
}

/// The marker entry that lets the user edit the search text.
pub struct SearchEditInput {}

/// One entry of the interactive search menu.
pub enum SearchOption {
    SearchEditInput(SearchEditInput),
    SearchAnimeOption(AnimeEpisodeItem),
}

impl SearchOption {
    /// The menu text of this entry.
    pub fn to_text(&self) -> (r: String)
        ensures
            match self {
                SearchOption::SearchEditInput(_) => r@ == "Edit Search name"@,
                SearchOption::SearchAnimeOption(o) => r@ == o.anime_title@ + " "@
                    + o.episode_title@,
            },
    {
        match self {
            SearchOption::SearchEditInput(_) => String::from_str("Edit Search name"),
            SearchOption::SearchAnimeOption(o) => {
                let mut out = o.anime_title.clone();
                out.append(" ");
                out.append(o.episode_title.as_str());
                out
            },
        }
    }
}

/// The episode choices one found series offers, in episode order.
pub open spec fn anime_choices(a: &SearchAnimeJson) -> Seq<EpisodeChoice> {
    a.episodes@.map_values(
        |e: SearchAnimeEpisodeJson|
            EpisodeChoice {
                anime_id: a.anime_id as int,
                anime_title: a.anime_title@,
                episode_id: e.episode_id as int,
                episode_title: e.episode_title@,
            },
    )
}

/// All episode choices of a search response, series by series.
pub open spec fn all_choices(animes: Seq<SearchAnimeJson>) -> Seq<EpisodeChoice>
    decreases animes.len(),
{
    if animes.len() == 0 {
        Seq::empty()
    } else {
        all_choices(animes.drop_last()) + anime_choices(&animes.last())
    }
}

/// The digest that `md5::compute` assigns to a byte string; a function of
/// the bytes alone.
pub uninterp spec fn md5_digest_of(data: Seq<u8>) -> Seq<u8>;

/// Relies on `md5::compute`: returns the 16-byte MD5 digest of the data.
#[verifier::external_body]
fn md5_digest(data: &Vec<u8>) -> (r: Vec<u8>)
    ensures
        r@ == md5_digest_of(data@),
        r@.len() == 16,
{
    md5::compute(data.as_slice()).0.to_vec()
}

/// A byte string in lowercase hex, two digits per byte.
pub open spec fn hex_of_bytes(data: Seq<u8>) -> Seq<char>
    decreases data.len(),
{
    if data.len() == 0 {
        Seq::empty()
    } else {
        hex_of_bytes(data.drop_last()) + hex2(data.last() as int)
    }
}

/// The matching side of the pipeline.
pub struct DandanMatch {}

impl DandanMatch {
    /// The hash that identifies a file to the comment service: the MD5 of
    /// its leading bytes, in lowercase hex.
    pub fn get_file_hash(data: &Vec<u8>) -> (r: String)
        ensures
            r@ == hex_of_bytes(md5_digest_of(data@)),
            r@.len() == 32,
    {
        let digest = md5_digest(data);
        let n = digest.len();
        let mut out = String::new();
        for i in 0..n
            invariant
                n == digest@.len(),
                digest@ == md5_digest_of(data@),
                out@ == hex_of_bytes(digest@.take(i as int)),
                out@.len() == 2 * i,
        {
            crate::fmt::push_hex2(&mut out, digest[i]);
            proof {
                assert(digest@.take(i as int + 1).drop_last() =~= digest@.take(i as int));
                assert(digest@.take(i as int + 1).last() == digest@[i as int]);
            }
        }
        proof {
            assert(digest@.take(n as int) =~= digest@);
        }
        out
    }

    /// Builds the interactive search menu for a search response: one entry
    /// per episode of every found series, in response order, and a final
    /// entry that lets the user edit the search text.
    pub fn search_options(animes: &Vec<SearchAnimeJson>) -> (r: Vec<SearchOption>)
        ensures
            r@.len() == all_choices(animes@).len() + 1,
            forall|i: int|
                0 <= i < all_choices(animes@).len() ==> (#[trigger] r@[i] matches
                    SearchOption::SearchAnimeOption(o) && o@ == all_choices(animes@)[i]),
            r@.last() matches SearchOption::SearchEditInput(_),
    {
        let ghost flat = all_choices(animes@);
        let n = animes.len();
        let mut r: Vec<SearchOption> = Vec::new();
        proof {
            assert(animes@.take(0) =~= Seq::<SearchAnimeJson>::empty());
        }
        for i in 0..n
            invariant
                n == animes@.len(),
                flat == all_choices(animes@),
                r@.len() == all_choices(animes@.take(i as int)).len(),
                forall|q: int|
                    0 <= q < r@.len() ==> (#[trigger] r@[q] matches
                        SearchOption::SearchAnimeOption(o) && o@ == all_choices(
                        animes@.take(i as int),
                    )[q]),
        {
            let anime = &animes[i];
            let m = anime.episodes.len();
            let ghost base = all_choices(animes@.take(i as int));
            for j in 0..m
                invariant
                    n == animes@.len(),
                    i < n,
                    anime == &animes[i as int],
                    m == anime.episodes@.len(),
                    base == all_choices(animes@.take(i as int)),
                    r@.len() == base.len() + j,
                    forall|q: int|
                        0 <= q < base.len() ==> (#[trigger] r@[q] matches
                            SearchOption::SearchAnimeOption(o) && o@ == base[q]),
                    forall|q: int|
                        0 <= q < j ==> (#[trigger] r@[base.len() + q] matches
                            SearchOption::SearchAnimeOption(o) && o@ == anime_choices(
                            &animes@[i as int],
                        )[q]),
            {
                let episode = &anime.episodes[j];
                let item = AnimeEpisodeItem {
                    anime_id: anime.anime_id,
                    anime_title: anime.anime_title.clone(),
                    episode_id: episode.episode_id,
                    episode_title: episode.episode_title.clone(),
                };
                proof {
                    assert(item@ == anime_choices(&animes@[i as int])[j as int]);
                }
                r.push(SearchOption::SearchAnimeOption(item));
            }
            proof {
                assert(animes@.take(i as int + 1).drop_last() =~= animes@.take(i as int));
                assert(animes@.take(i as int + 1).last() == animes@[i as int]);
                assert(all_choices(animes@.take(i as int + 1)) =~= base + anime_choices(
                    &animes@[i as int],
                ));
                assert forall|q: int| 0 <= q < r@.len() implies (#[trigger] r@[q] matches
                    SearchOption::SearchAnimeOption(o) && o@ == all_choices(
                    animes@.take(i as int + 1),
                )[q]) by {
                    if q >= base.len() {
                        let q2 = q - base.len();
                        assert(r@[base.len() + q2] matches SearchOption::SearchAnimeOption(o)
                            && o@ == anime_choices(&animes@[i as int])[q2]);
                    }
                }
            }
        }
        proof {
            assert(animes@.take(n as int) =~= animes@);
        }
        r.push(SearchOption::SearchEditInput(SearchEditInput {  }));
        r
    }

    /// Builds the match request for a file from its hash, the name of its
    /// folder, its file name without extension, and its size in bytes.
    pub fn get_match_params(
        hash: String,
        folder_name: String,
        filename: String,
        file_size: u64,
    ) -> (r: MatchParams)
        ensures
            r.match_name@ == folder_name@ + " "@ + filename@,
            r.json.file_name@ == filename@,
            r.json.file_hash@ == hash@,
            r.json.file_size@ == dec_str(file_size as nat),
            r.json.match_mode is None,
    {
        let mut match_name = folder_name;
        match_name.append(" ");
        match_name.append(filename.as_str());
        MatchParams {
            match_name: match_name,
            json: MatchParamsJson {
                file_name: filename,
                file_hash: hash,
                file_size: u64_to_string(file_size),
                match_mode: None,
            },
        }
    }
}

} // verus!
