//! The whole conversion of one comment batch into a subtitle document:
//! parse every record, sort by arrival time, filter against a denylist,
//! schedule and serialize, and splice in an optional external document.

use vstd::prelude::*;

use crate::ass_creator::{event_line, merged_events, preamble, AssCreator};
use crate::canvas::{initial_state, spec_draw, CanvasConfig, CanvasState, ConfigModel};
use crate::danmu::{Danmu, DanmuModel, MAX_TEXT_CHARS};
use crate::parse::{spec_parse_position, ParseError, Position};
use crate::text::{contains_chars, contains_sub, str_chars};

verus! {

/// One raw comment as delivered by the comment service: an id, a position
/// field, and the text.
pub struct CommentItem {
    pub cid: u64,
    pub p: String,
    pub m: String,
}

/// The mathematical image of a [`CommentItem`].
#[verifier::ext_equal]
pub ghost struct CommentModel {
    pub p: Seq<char>,
    pub m: Seq<char>,
}

impl View for CommentItem {
    type V = CommentModel;

    open spec fn view(&self) -> CommentModel {
        CommentModel { p: self.p@, m: self.m@ }
    }
}

pub open spec fn comments_view(v: Seq<CommentItem>) -> Seq<CommentModel> {
    v.map_values(|it: CommentItem| it@)
}

pub open spec fn danmus_view(v: Seq<Danmu>) -> Seq<DanmuModel> {
    v.map_values(|d: Danmu| d@)
}

pub open spec fn strings_view(v: Seq<String>) -> Seq<Seq<char>> {
    v.map_values(|s: String| s@)
}

pub open spec fn deny_view(deny: Option<Vec<String>>) -> Option<Seq<Seq<char>>> {
    match deny {
        None => None,
        Some(v) => Some(strings_view(v@)),
    }
}

/// Parses every record in order; the first malformed one decides the
/// error of the whole batch.
pub open spec fn parse_comments(items: Seq<CommentModel>) -> Result<Seq<DanmuModel>, ParseError>
    decreases items.len(),
{
    if items.len() == 0 {
        Ok(Seq::empty())
    } else {
        match parse_comments(items.drop_last()) {
            Err(e) => Err(e),
            Ok(ds) => match spec_parse_position(items.last().p) {
                Err(e) => Err(e),
                Ok(pos) => Ok(
                    ds.push(
                        DanmuModel {
                            content: items.last().m,
                            timeline_cs: pos.timestamp_cs,
                            kind: pos.mode,
                            rgb: pos.color,
                        },
                    ),
                ),
            },
        }
    }
}

/// Non-decreasing arrival times.
pub open spec fn time_sorted(s: Seq<DanmuModel>) -> bool {
    forall|j: int, k: int|
        0 <= j < k < s.len() ==> (#[trigger] s[j]).timeline_cs <= (#[trigger] s[k]).timeline_cs
}

/// Inserts a comment after every earlier-or-equal one, so that equal
/// timestamps keep their arrival order.
pub open spec fn insert_by_time(d: DanmuModel, s: Seq<DanmuModel>) -> Seq<DanmuModel>
    decreases s.len(),
{
    if s.len() == 0 {
        seq![d]
    } else if s.last().timeline_cs <= d.timeline_cs {
        s.push(d)
    } else {
        insert_by_time(d, s.drop_last()).push(s.last())
    }
}

/// Stable sort by arrival time: insertion of each comment in input order.
pub open spec fn sort_by_time(s: Seq<DanmuModel>) -> Seq<DanmuModel>
    decreases s.len(),
{
    if s.len() == 0 {
        Seq::empty()
    } else {
        insert_by_time(s.last(), sort_by_time(s.drop_last()))
    }
}

/// Whether some entry of a denylist occurs in a comment text.
pub open spec fn blocked_list(content: Seq<char>, list: Seq<Seq<char>>) -> bool {
    exists|k: int| 0 <= k < list.len() && contains_sub(content, #[trigger] list[k])
}

/// Whether a comment is suppressed by the denylist: some entry occurs in
/// its text.
pub open spec fn blocked(content: Seq<char>, deny: Option<Seq<Seq<char>>>) -> bool {
    match deny {
        None => false,
        Some(list) => blocked_list(content, list),
    }
}

/// The result of scheduling and serializing a batch: the final canvas
/// state, the emitted event lines, and how many comments were placed.
#[verifier::ext_equal]
pub ghost struct ConvertAcc {
    pub st: CanvasState,
    pub events: Seq<char>,
    pub count: int,
}

/// Folds the scheduler over a sorted batch, in order: blocked comments are
/// skipped, dropped ones add nothing, placed ones append their event line.
pub open spec fn spec_convert_events(
    c: ConfigModel,
    st: CanvasState,
    ds: Seq<DanmuModel>,
    deny: Option<Seq<Seq<char>>>,
) -> ConvertAcc
    decreases ds.len(),
{
    if ds.len() == 0 {
        ConvertAcc { st: st, events: Seq::empty(), count: 0 }
    } else {
        let acc = spec_convert_events(c, st, ds.drop_last(), deny);
        let d = ds.last();
        if blocked(d.content, deny) {
            acc
        } else {
            let (st2, out) = spec_draw(c, acc.st, d);
            match out {
                None => ConvertAcc { st: st2, ..acc },
                Some(m) => ConvertAcc {
                    st: st2,
                    events: acc.events + event_line(m),
                    count: acc.count + 1,
                },
            }
        }
    }
}

/// The whole conversion: the document is the preamble for the title and
/// configuration, the event lines of the sorted, filtered batch, and the
/// event lines of the external document, in that order; the count is the
/// number of placed comments.  A malformed record fails the whole batch.
pub open spec fn spec_json_to_ass(
    comments: Seq<CommentModel>,
    built_in_ass: Option<Seq<char>>,
    title: Seq<char>,
    deny: Option<Seq<Seq<char>>>,
    c: ConfigModel,
) -> Result<(int, Seq<char>), ParseError> {
    match parse_comments(comments) {
        Err(e) => Err(e),
        Ok(ds) => {
            let acc = spec_convert_events(c, initial_state(c), sort_by_time(ds), deny);
            let tail = match built_in_ass {
                None => Seq::<char>::empty(),
                Some(b) => merged_events(b),
            };
            Ok((acc.count, preamble(title, c) + acc.events + tail))
        },
    }
}

/// Where a new comment goes in a sorted run: right after the existing
/// comments that do not arrive later.
proof fn lemma_insert_by_time_at(d: DanmuModel, s: Seq<DanmuModel>, j: int)
    requires
        time_sorted(s),
        0 <= j <= s.len(),
        forall|k: int| j <= k < s.len() ==> (#[trigger] s[k]).timeline_cs > d.timeline_cs,
        j > 0 ==> s[j - 1].timeline_cs <= d.timeline_cs,
    ensures
        insert_by_time(d, s) =~= s.insert(j, d),
    decreases s.len(),
{
    if s.len() == 0 {
        assert(s.insert(0, d) =~= seq![d]);
    } else if s.last().timeline_cs <= d.timeline_cs {
        assert(j == s.len());
        assert(s.insert(s.len() as int, d) =~= s.push(d));
    } else {
        assert(j < s.len());
        assert(time_sorted(s.drop_last())) by {
            assert(forall|q: int|
                0 <= q < s.len() - 1 ==> s.drop_last()[q] == #[trigger] s[q]);
        }
        lemma_insert_by_time_at(d, s.drop_last(), j);
        assert(s.drop_last().insert(j, d).push(s.last()) =~= s.insert(j, d));
    }
}

/// Checks a comment text against the entries of a denylist.
fn is_blocked_by(content: &String, list: &Vec<String>) -> (r: bool)
    ensures
        r == blocked_list(content@, strings_view(list@)),
{
    let ghost m = strings_view(list@);
    let hay = str_chars(content.as_str());
    let n = list.len();
    for k in 0..n
        invariant
            n == list@.len(),
            m == strings_view(list@),
            hay@ == content@,
            forall|q: int| 0 <= q < k ==> !contains_sub(content@, #[trigger] m[q]),
    {
        let needle = str_chars(list[k].as_str());
        proof {
            assert(m[k as int] == list@[k as int]@);
            assert(needle@ == list@[k as int]@);
        }
        if contains_chars(&hay, &needle) {
            assert(contains_sub(content@, m[k as int]));
            assert(blocked_list(content@, m));
            return true;
        }
    }
    assert(!blocked_list(content@, m));
    false
}

/// The conversion pipeline.
pub struct Dandan {}

impl Dandan {
    /// Converts one batch of raw comments into a complete subtitle
    /// document.  Returns how many comments were placed and the document
    /// text, or the error of the first malformed record.
    #[verifier::rlimit(100)]
    pub fn json_to_ass(
        comments: Vec<CommentItem>,
        built_in_ass: Option<String>,
        title: String,
        denylist: Option<Vec<String>>,
        canvas_config: CanvasConfig,
    ) -> (r: Result<(u64, String), ParseError>)
        requires
            canvas_config@.wf(),
            forall|i: int|
                0 <= i < comments@.len() ==> (#[trigger] comments@[i]).m@.len()
                    <= MAX_TEXT_CHARS,
        ensures
            ({
                let spec_r = spec_json_to_ass(
                    comments_view(comments@),
                    match built_in_ass {
                        None => None,
                        Some(b) => Some(b@),
                    },
                    title@,
                    deny_view(denylist),
                    canvas_config@,
                );
                match (r, spec_r) {
                    (Ok((n, s)), Ok((n2, s2))) => n == n2 && s@ == s2,
                    (Err(e), Err(e2)) => e == e2,
                    _ => false,
                }
            }),
    {
        let ghost cview = comments_view(comments@);
        let ghost c = canvas_config@;
        // parse every record, in order
        let n = comments.len();
        let mut danmus: Vec<Danmu> = Vec::new();
        proof {
            assert(cview.take(0) =~= Seq::<CommentModel>::empty());
            assert(danmus_view(danmus@) =~= Seq::<DanmuModel>::empty());
        }
        for i in 0..n
            invariant
                n == comments@.len(),
                cview == comments_view(comments@),
                forall|q: int|
                    0 <= q < comments@.len() ==> (#[trigger] comments@[q]).m@.len()
                        <= MAX_TEXT_CHARS,
                parse_comments(cview.take(i as int)) == Ok::<_, ParseError>(
                    danmus_view(danmus@),
                ),
                forall|q: int| 0 <= q < danmus@.len() ==> (#[trigger] danmus@[q])@.valid(),
        {
            let item = &comments[i];
            let pos = match Position::parse(item.p.as_str()) {
                Err(e) => {
                    proof {
                        lemma_parse_comments_prefix_err(cview, i as int, e);
                    }
                    return Err(e);
                },
                Ok(pos) => pos,
            };
            let d = Danmu {
                content: item.m.clone(),
                timeline_cs: pos.timestamp_cs,
                kind: pos.mode,
                rgb: pos.color,
            };
            let ghost danmus0 = danmus@;
            danmus.push(d);
            proof {
                assert(cview.take(i as int + 1).drop_last() =~= cview.take(i as int));
                assert(cview.take(i as int + 1).last() == cview[i as int]);
                assert(cview[i as int] == comments@[i as int]@);
                let model = (match spec_parse_position(cview[i as int].p) {
                    Ok(m) => m,
                    Err(_) => pos@,
                });
                assert(d@ == DanmuModel {
                    content: cview[i as int].m,
                    timeline_cs: model.timestamp_cs,
                    kind: model.mode,
                    rgb: model.color,
                });
                assert(parse_comments(cview.take(i as int + 1)) == Ok::<_, ParseError>(
                    danmus_view(danmus0).push(d@),
                ));
                assert(danmus_view(danmus@) =~= danmus_view(danmus0).push(d@));
                assert(d@.valid());
            }
        }
        proof {
            assert(cview.take(n as int) =~= cview);
        }
        // stable sort by arrival time
        let nd = danmus.len();
        let mut sorted_v: Vec<Danmu> = Vec::new();
        for i in 0..nd
            invariant
                nd == danmus@.len(),
                parse_comments(cview) == Ok::<_, ParseError>(danmus_view(danmus@)),
                forall|q: int| 0 <= q < danmus@.len() ==> (#[trigger] danmus@[q])@.valid(),
                danmus_view(sorted_v@) =~= sort_by_time(danmus_view(danmus@).take(i as int)),
                time_sorted(danmus_view(sorted_v@)),
                forall|q: int| 0 <= q < sorted_v@.len() ==> (#[trigger] sorted_v@[q])@.valid(),
        {
            let it = &danmus[i];
            let d = Danmu {
                content: it.content.clone(),
                timeline_cs: it.timeline_cs,
                kind: it.kind,
                rgb: it.rgb,
            };
            assert(d@ == danmus@[i as int]@);
            let ghost pre = danmus_view(sorted_v@);
            let mut j = sorted_v.len();
            while j > 0 && sorted_v[j - 1].timeline_cs > d.timeline_cs
                invariant
                    j <= sorted_v@.len(),
                    forall|k: int|
                        j <= k < sorted_v@.len() ==> (#[trigger] sorted_v@[k]).timeline_cs
                            > d.timeline_cs,
                decreases j,
            {
                j = j - 1;
            }
            let ghost jj = j as int;
            let ghost pre_exec = sorted_v@;
            sorted_v.insert(j, d);
            proof {
                assert forall|k: int| jj <= k < pre.len() implies (#[trigger] pre[k]).timeline_cs
                    > d@.timeline_cs by {
                    assert(pre[k] == pre_exec[k]@);
                }
                if jj > 0 {
                    assert(pre[jj - 1] == pre_exec[jj - 1]@);
                }
                lemma_insert_by_time_at(d@, pre, jj);
                let nv = danmus_view(sorted_v@);
                assert(nv =~= pre.insert(jj, d@));
                let dv = danmus_view(danmus@);
                assert(dv.take(i as int + 1).drop_last() =~= dv.take(i as int));
                assert(dv.take(i as int + 1).last() == dv[i as int]);
                assert(nv =~= sort_by_time(dv.take(i as int + 1)));
                assert forall|q1: int, q2: int|
                    0 <= q1 < q2 < nv.len() implies (#[trigger] nv[q1]).timeline_cs <= (
                #[trigger] nv[q2]).timeline_cs by {
                    assert(forall|q: int| 0 <= q < jj ==> nv[q] == #[trigger] pre[q]);
                    assert(nv[jj] == d@);
                    assert(forall|q: int| jj < q < nv.len() ==> nv[q] == #[trigger] pre[q - 1]);
                    assert(forall|q: int|
                        jj <= q < pre.len() ==> (#[trigger] pre[q]).timeline_cs
                            > d@.timeline_cs);
                    if jj > 0 {
                        assert(pre_exec[jj - 1].timeline_cs <= d.timeline_cs);
                        assert(pre[jj - 1].timeline_cs <= d@.timeline_cs);
                    }
                }
                assert(time_sorted(nv));
            }
        }
        proof {
            assert(danmus_view(danmus@).take(nd as int) =~= danmus_view(danmus@));
        }
        // schedule and serialize
        let mut ass = AssCreator::new(title.as_str(), &canvas_config);
        let mut canvas = canvas_config.duplicate().canvas();
        let ghost sorted = danmus_view(sorted_v@);
        let ghost dlist = deny_view(denylist);
        let (has_deny, deny_list): (bool, Vec<String>) = match denylist {
            None => (false, Vec::new()),
            Some(v) => (true, v),
        };
        proof {
            if has_deny {
                assert(dlist == Some(strings_view(deny_list@)));
            } else {
                assert(dlist is None);
            }
        }
        let mut count: u64 = 0;
        let ns = sorted_v.len();
        proof {
            assert(sorted.take(0) =~= Seq::<DanmuModel>::empty());
            assert(ass.buf@ =~= preamble(title@, c) + spec_convert_events(
                c,
                initial_state(c),
                sorted.take(0),
                dlist,
            ).events);
        }
        let mut i: usize = 0;
        while i < ns
            invariant
                i <= ns,
                ns == sorted_v@.len(),
                sorted == danmus_view(sorted_v@),
                time_sorted(sorted),
                forall|q: int| 0 <= q < sorted_v@.len() ==> (#[trigger] sorted_v@[q])@.valid(),
                canvas.wf(),
                canvas.config == canvas_config,
                c == canvas_config@,
                dlist == (if has_deny {
                    Some(strings_view(deny_list@))
                } else {
                    None::<Seq<Seq<char>>>
                }),
                ({
                    let acc = spec_convert_events(c, initial_state(c), sorted.take(i as int), dlist);
                    &&& canvas@ == acc.st
                    &&& count == acc.count
                    &&& ass.buf@ == preamble(title@, c) + acc.events
                }),
                forall|k: int|
                    i <= k < sorted.len() ==> canvas.latest_cs <= (#[trigger] sorted[k]).timeline_cs,
                count <= i,
            decreases ns - i,
        {
            let it = &sorted_v[i];
            let d = Danmu {
                content: it.content.clone(),
                timeline_cs: it.timeline_cs,
                kind: it.kind,
                rgb: it.rgb,
            };
            assert(d@ == sorted[i as int]);
            let ghost acc0 = spec_convert_events(c, initial_state(c), sorted.take(i as int), dlist);
            proof {
                assert(sorted.take(i as int + 1).drop_last() =~= sorted.take(i as int));
                assert(sorted.take(i as int + 1).last() == sorted[i as int]);
                let step = spec_draw(c, acc0.st, sorted[i as int]);
                let acc1 = spec_convert_events(
                    c,
                    initial_state(c),
                    sorted.take(i as int + 1),
                    dlist,
                );
                assert(spec_convert_events(
                    c,
                    initial_state(c),
                    sorted.take(i as int + 1).drop_last(),
                    dlist,
                ) == acc0);
                assert(acc1 == (if blocked(sorted[i as int].content, dlist) {
                    acc0
                } else {
                    match step.1 {
                        None => ConvertAcc { st: step.0, ..acc0 },
                        Some(m) => ConvertAcc {
                            st: step.0,
                            events: acc0.events + event_line(m),
                            count: acc0.count + 1,
                        },
                    }
                }));
            }
            let ghost st_pre = canvas@;
            let hit = if has_deny {
                is_blocked_by(&d.content, &deny_list)
            } else {
                false
            };
            proof {
                if has_deny {
                    assert(blocked(sorted[i as int].content, dlist) == blocked_list(
                        sorted[i as int].content,
                        strings_view(deny_list@),
                    ));
                }
            }
            assert(hit == blocked(sorted[i as int].content, dlist));
            if !hit {
                assert(!blocked(sorted[i as int].content, dlist));
                match canvas.draw(d) {
                    None => {
                        proof {
                            let acc1 = spec_convert_events(
                                c,
                                initial_state(c),
                                sorted.take(i as int + 1),
                                dlist,
                            );
                            assert(st_pre == acc0.st);
                            assert(canvas@ == spec_draw(c, acc0.st, sorted[i as int]).0);
                            assert(acc1.st == canvas@ && acc1.count == count && acc1.events
                                == acc0.events);
                        }
                    },
                    Some(drawable) => {
                        let ghost dm = drawable@;
                        ass.write(drawable);
                        count = count + 1;
                        proof {
                            let acc1 = spec_convert_events(
                                c,
                                initial_state(c),
                                sorted.take(i as int + 1),
                                dlist,
                            );
                            assert(acc1.st == canvas@ && acc1.count == count);
                            assert(acc1.events =~= acc0.events + event_line(dm));
                            assert(ass.buf@ =~= preamble(title@, c) + acc1.events);
                        }
                    },
                }
            } else {
                proof {
                    let acc1 = spec_convert_events(
                        c,
                        initial_state(c),
                        sorted.take(i as int + 1),
                        dlist,
                    );
                    assert(acc1 == acc0);
                }
            }
            proof {
                let acc1 = spec_convert_events(
                    c,
                    initial_state(c),
                    sorted.take(i as int + 1),
                    dlist,
                );
                assert(ass.buf@ =~= preamble(title@, c) + acc1.events);
                assert forall|k: int|
                    i + 1 <= k < sorted.len() implies canvas.latest_cs <= (
                #[trigger] sorted[k]).timeline_cs by {
                    assert(sorted[i as int].timeline_cs <= sorted[k].timeline_cs);
                }
            }
            i = i + 1;
        }
        proof {
            assert(sorted.take(ns as int) =~= sorted);
        }
        // splice in the external document
        match &built_in_ass {
            None => {},
            Some(b) => {
                ass.merge(b.as_str());
            },
        }
        proof {
            let acc = spec_convert_events(c, initial_state(c), sorted, dlist);
            let tail = match built_in_ass {
                None => Seq::<char>::empty(),
                Some(b) => merged_events(b@),
            };
            assert(ass.buf@ =~= preamble(title@, c) + acc.events + tail);
        }
        Ok((count, ass.buf))
    }
}

/// A malformed record fails every batch that contains it, with its own
/// error, provided every earlier record parsed.
proof fn lemma_parse_comments_prefix_err(items: Seq<CommentModel>, i: int, e: ParseError)
    requires
        0 <= i < items.len(),
        parse_comments(items.take(i)) is Ok,
        spec_parse_position(items[i].p) == Err::<crate::parse::PositionModel, _>(e),
    ensures
        parse_comments(items) == Err::<Seq<DanmuModel>, _>(e),
    decreases items.len() - i,
{
    if i + 1 == items.len() {
        assert(items.take(items.len() as int) =~= items);
        assert(items.drop_last() =~= items.take(i));
        assert(items.last() == items[i]);
    } else {
        assert(parse_comments(items.take(i + 1)) == Err::<Seq<DanmuModel>, _>(e)) by {
            assert(items.take(i + 1).drop_last() =~= items.take(i));
            assert(items.take(i + 1).last() == items[i]);
        }
        lemma_parse_comments_err_extends(items, i + 1, e);
    }
}

/// Once a prefix fails to parse, the whole sequence fails the same way.
proof fn lemma_parse_comments_err_extends(items: Seq<CommentModel>, i: int, e: ParseError)
    requires
        0 <= i <= items.len(),
        parse_comments(items.take(i)) == Err::<Seq<DanmuModel>, _>(e),
    ensures
        parse_comments(items) == Err::<Seq<DanmuModel>, _>(e),
    decreases items.len() - i,
{
    if i == items.len() {
        assert(items.take(i) =~= items);
    } else {
        assert(parse_comments(items.take(i + 1)) == Err::<Seq<DanmuModel>, _>(e)) by {
            assert(items.take(i + 1).drop_last() =~= items.take(i));
        }
        lemma_parse_comments_err_extends(items, i + 1, e);
    }
}

} // verus!
