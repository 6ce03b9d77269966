//! The frame batcher.
//!
//! Exchanges bound the size of one wire frame, by bytes, by channel count,
//! or not at all.  The batcher packs an ordered list of channel identifiers
//! into batches greedily, in input order, so that every batch's encoded
//! command respects the bounds and no identifier is split across two
//! commands.  An identifier whose own command alone breaks the byte bound
//! can never be sent and is reported as [`WsError::FrameSizeError`].

use vstd::prelude::*;
use vstd::seq_lib::lemma_flatten_concat;
use vstd::string::StringSliceAdditionalSpecFns;
use vstd::utf8::encode_utf8;
use crate::errors::WsError;

verus! {

/// One exchange's way of rendering a batch of channel identifiers into a
/// single wire command.
pub trait CommandEncoder {
    /// The command text for one batch, as a function of the batch alone.
    spec fn spec_command(chans: Seq<Seq<char>>, subscribe: bool) -> Seq<char>;

    /// Renders the command for one batch.
    fn command(chunk: &Vec<String>, subscribe: bool) -> (r: String)
        ensures
            r@ == Self::spec_command(chunk.deep_view(), subscribe),
    ;
}

/// The frame bounds of one exchange: a maximum encoded command size in
/// bytes, a maximum number of channels per command, or both; `None` means
/// unbounded.
#[derive(Clone, Copy)]
pub struct FrameLimits {
    pub max_bytes: Option<usize>,
    pub max_channels: Option<usize>,
}

/// The encoded size, in bytes, of the command covering `chans`.
pub open spec fn command_bytes<E: CommandEncoder>(chans: Seq<Seq<char>>, subscribe: bool) -> nat {
    encode_utf8(E::spec_command(chans, subscribe)).len()
}

/// Whether one batch respects both bounds.
pub open spec fn batch_fits<E: CommandEncoder>(
    chans: Seq<Seq<char>>,
    subscribe: bool,
    limits: FrameLimits,
) -> bool {
    &&& match limits.max_bytes {
        Some(b) => command_bytes::<E>(chans, subscribe) <= b,
        None => true,
    }
    &&& match limits.max_channels {
        Some(c) => chans.len() <= c,
        None => true,
    }
}

/// Whether a single identifier can be sent at all: its batch of one must
/// fit.
pub open spec fn fits_alone<E: CommandEncoder>(
    chan: Seq<char>,
    subscribe: bool,
    limits: FrameLimits,
) -> bool {
    batch_fits::<E>(seq![chan], subscribe, limits)
}

/// Every identifier of the list can be sent at all.
pub open spec fn all_fit_alone<E: CommandEncoder>(
    chans: Seq<Seq<char>>,
    subscribe: bool,
    limits: FrameLimits,
) -> bool {
    forall|i: int| 0 <= i < chans.len() ==> fits_alone::<E>(#[trigger] chans[i], subscribe, limits)
}

/// Greedy packing in input order: `cur` is the open batch, `rest` the
/// identifiers still to place.  An identifier joins the open batch if the
/// grown batch still fits, and otherwise closes it and opens the next one.
pub open spec fn greedy_batches<E: CommandEncoder>(
    cur: Seq<Seq<char>>,
    rest: Seq<Seq<char>>,
    subscribe: bool,
    limits: FrameLimits,
) -> Seq<Seq<Seq<char>>>
    decreases rest.len(),
{
    if rest.len() == 0 {
        if cur.len() == 0 {
            Seq::empty()
        } else {
            seq![cur]
        }
    } else {
        let c = rest[0];
        if cur.len() == 0 || batch_fits::<E>(cur.push(c), subscribe, limits) {
            greedy_batches::<E>(cur.push(c), rest.drop_first(), subscribe, limits)
        } else {
            seq![cur] + greedy_batches::<E>(seq![c], rest.drop_first(), subscribe, limits)
        }
    }
}

/// The commands of the greedy batching: one per batch, in order.
pub open spec fn spec_batched_commands<E: CommandEncoder>(
    chans: Seq<Seq<char>>,
    subscribe: bool,
    limits: FrameLimits,
) -> Seq<Seq<char>> {
    greedy_batches::<E>(Seq::empty(), chans, subscribe, limits).map_values(
        |b: Seq<Seq<char>>| E::spec_command(b, subscribe),
    )
}

/// Concatenated in order, the batches give back exactly the identifiers
/// that went in: none dropped, none duplicated, none reordered; every
/// batch is non-empty and respects the bounds.
pub proof fn lemma_greedy_batches_cover<E: CommandEncoder>(
    cur: Seq<Seq<char>>,
    rest: Seq<Seq<char>>,
    subscribe: bool,
    limits: FrameLimits,
)
    requires
        cur.len() > 0 ==> batch_fits::<E>(cur, subscribe, limits),
        all_fit_alone::<E>(rest, subscribe, limits),
    ensures
        greedy_batches::<E>(cur, rest, subscribe, limits).flatten() == cur + rest,
        forall|i: int|
            0 <= i < greedy_batches::<E>(cur, rest, subscribe, limits).len() ==> (#[trigger] greedy_batches::<
                E,
            >(cur, rest, subscribe, limits)[i]).len() > 0,
        forall|i: int|
            0 <= i < greedy_batches::<E>(cur, rest, subscribe, limits).len() ==> batch_fits::<E>(
                #[trigger] greedy_batches::<E>(cur, rest, subscribe, limits)[i],
                subscribe,
                limits,
            ),
    decreases rest.len(),
{
    let g = greedy_batches::<E>(cur, rest, subscribe, limits);
    if rest.len() == 0 {
        if cur.len() == 0 {
            assert(g.flatten() =~= cur + rest);
        } else {
            g.lemma_flatten_one_element();
            assert(g.flatten() =~= cur + rest);
        }
    } else {
        let c = rest[0];
        assert(fits_alone::<E>(c, subscribe, limits));
        assert(all_fit_alone::<E>(rest.drop_first(), subscribe, limits)) by {
            assert(forall|i: int|
                0 <= i < rest.drop_first().len() ==> #[trigger] rest.drop_first()[i] == rest[i
                    + 1]);
        }
        if cur.len() == 0 || batch_fits::<E>(cur.push(c), subscribe, limits) {
            assert(cur.len() == 0 ==> cur.push(c) =~= seq![c]);
            lemma_greedy_batches_cover::<E>(cur.push(c), rest.drop_first(), subscribe, limits);
            assert(g.flatten() == cur.push(c) + rest.drop_first());
            assert(cur.push(c) + rest.drop_first() =~= cur + rest);
        } else {
            let tail = greedy_batches::<E>(seq![c], rest.drop_first(), subscribe, limits);
            lemma_greedy_batches_cover::<E>(seq![c], rest.drop_first(), subscribe, limits);
            lemma_flatten_concat(seq![cur], tail);
            seq![cur].lemma_flatten_one_element();
            assert(g.flatten() =~= cur + (seq![c] + rest.drop_first()));
            assert(seq![c] + rest.drop_first() =~= rest);
            assert(forall|i: int|
                0 <= i < tail.len() ==> g[i + 1] == #[trigger] tail[i]);
        }
    }
}

/// A greedy result opens with the batch it was accumulating: the first
/// batch's first identifier is the open batch's first identifier.
pub proof fn lemma_greedy_first_batch_head<E: CommandEncoder>(
    cur: Seq<Seq<char>>,
    rest: Seq<Seq<char>>,
    subscribe: bool,
    limits: FrameLimits,
)
    requires
        cur.len() > 0,
    ensures
        greedy_batches::<E>(cur, rest, subscribe, limits).len() > 0,
        greedy_batches::<E>(cur, rest, subscribe, limits)[0][0] == cur[0],
        greedy_batches::<E>(cur, rest, subscribe, limits)[0].len() >= cur.len(),
    decreases rest.len(),
{
    if rest.len() == 0 {
    } else {
        let c = rest[0];
        if batch_fits::<E>(cur.push(c), subscribe, limits) {
            lemma_greedy_first_batch_head::<E>(cur.push(c), rest.drop_first(), subscribe, limits);
            assert(cur.push(c)[0] == cur[0]);
        } else {
            let tail = greedy_batches::<E>(seq![c], rest.drop_first(), subscribe, limits);
            assert((seq![cur] + tail)[0] == cur);
        }
    }
}

/// Greedy packing is maximal, which makes it minimal: every batch but the
/// last was closed only because the next identifier no longer fit, so no
/// packing that keeps the order can use fewer commands.
pub proof fn lemma_greedy_batches_maximal<E: CommandEncoder>(
    cur: Seq<Seq<char>>,
    rest: Seq<Seq<char>>,
    subscribe: bool,
    limits: FrameLimits,
)
    requires
        cur.len() > 0 ==> batch_fits::<E>(cur, subscribe, limits),
        all_fit_alone::<E>(rest, subscribe, limits),
    ensures
        forall|i: int|
            0 <= i < greedy_batches::<E>(cur, rest, subscribe, limits).len() - 1
                ==> !batch_fits::<E>(
                (#[trigger] greedy_batches::<E>(cur, rest, subscribe, limits)[i]).push(
                    greedy_batches::<E>(cur, rest, subscribe, limits)[i + 1][0],
                ),
                subscribe,
                limits,
            ),
    decreases rest.len(),
{
    let g = greedy_batches::<E>(cur, rest, subscribe, limits);
    if rest.len() == 0 {
    } else {
        let c = rest[0];
        assert(fits_alone::<E>(c, subscribe, limits));
        assert(all_fit_alone::<E>(rest.drop_first(), subscribe, limits)) by {
            assert(forall|i: int|
                0 <= i < rest.drop_first().len() ==> #[trigger] rest.drop_first()[i] == rest[i
                    + 1]);
        }
        if cur.len() == 0 || batch_fits::<E>(cur.push(c), subscribe, limits) {
            assert(cur.len() == 0 ==> cur.push(c) =~= seq![c]);
            lemma_greedy_batches_maximal::<E>(cur.push(c), rest.drop_first(), subscribe, limits);
            let g2 = greedy_batches::<E>(cur.push(c), rest.drop_first(), subscribe, limits);
            assert(g == g2);
            assert forall|i: int| 0 <= i < g.len() - 1 implies !batch_fits::<E>(
                (#[trigger] g[i]).push(g[i + 1][0]),
                subscribe,
                limits,
            ) by {
                assert(!batch_fits::<E>(g2[i].push(g2[i + 1][0]), subscribe, limits));
            }
        } else {
            let tail = greedy_batches::<E>(seq![c], rest.drop_first(), subscribe, limits);
            lemma_greedy_batches_maximal::<E>(seq![c], rest.drop_first(), subscribe, limits);
            lemma_greedy_first_batch_head::<E>(seq![c], rest.drop_first(), subscribe, limits);
            assert(g == seq![cur] + tail);
            assert(seq![c][0] == c);
            assert forall|i: int| 0 <= i < g.len() - 1 implies !batch_fits::<E>(
                (#[trigger] g[i]).push(g[i + 1][0]),
                subscribe,
                limits,
            ) by {
                if i == 0 {
                    assert(g[0] == cur);
                    assert(g[1] == tail[0]);
                    assert(tail[0][0] == c);
                } else {
                    assert(g[i] == tail[i - 1]);
                    assert(g[i + 1] == tail[i]);
                    assert(0 <= i - 1 < tail.len() - 1);
                    assert(!batch_fits::<E>(tail[i - 1].push(tail[i][0]), subscribe, limits));
                }
            }
        }
    }
}

/// Feasibility is closed under contiguous sub-batches: every slice of a
/// batch that fits also fits.  A pure channel-count bound has this
/// outright; a byte bound has it whenever the encoded command of a
/// sub-batch is no longer than that of the whole batch.
pub open spec fn fits_subrange_closed<E: CommandEncoder>(
    subscribe: bool,
    limits: FrameLimits,
) -> bool {
    forall|b: Seq<Seq<char>>, x: int, y: int|
        batch_fits::<E>(b, subscribe, limits) && 0 <= x <= y <= b.len() ==> batch_fits::<E>(
            #[trigger] b.subrange(x, y),
            subscribe,
            limits,
        )
}

/// A channel-count bound alone is closed under sub-batches.
pub proof fn lemma_count_limits_subrange_closed<E: CommandEncoder>(
    subscribe: bool,
    limits: FrameLimits,
)
    requires
        limits.max_bytes is None,
    ensures
        fits_subrange_closed::<E>(subscribe, limits),
{
}

/// An order-preserving split of `chans` into non-empty batches that all
/// respect the bounds.
pub open spec fn is_partition<E: CommandEncoder>(
    parts: Seq<Seq<Seq<char>>>,
    chans: Seq<Seq<char>>,
    subscribe: bool,
    limits: FrameLimits,
) -> bool {
    &&& parts.flatten() == chans
    &&& forall|i: int| 0 <= i < parts.len() ==> (#[trigger] parts[i]).len() > 0
    &&& forall|i: int|
        0 <= i < parts.len() ==> batch_fits::<E>(#[trigger] parts[i], subscribe, limits)
}

/// The partition left after consuming the first `d` identifiers: whole
/// leading batches are dropped, a straddled batch loses its consumed
/// prefix.
pub open spec fn chop(parts: Seq<Seq<Seq<char>>>, d: int) -> Seq<Seq<Seq<char>>>
    decreases parts.len(),
{
    if parts.len() == 0 {
        parts
    } else if d >= parts[0].len() {
        chop(parts.drop_first(), d - parts[0].len())
    } else if d <= 0 {
        parts
    } else {
        seq![parts[0].subrange(d, parts[0].len() as int)] + parts.drop_first()
    }
}

/// Chopping a partition leaves a partition of the remaining suffix with
/// no more batches, and strictly fewer once a whole batch is consumed.
pub proof fn lemma_chop<E: CommandEncoder>(
    parts: Seq<Seq<Seq<char>>>,
    chans: Seq<Seq<char>>,
    d: int,
    subscribe: bool,
    limits: FrameLimits,
)
    requires
        fits_subrange_closed::<E>(subscribe, limits),
        is_partition::<E>(parts, chans, subscribe, limits),
        0 <= d <= chans.len(),
    ensures
        is_partition::<E>(chop(parts, d), chans.skip(d), subscribe, limits),
        chop(parts, d).len() <= parts.len(),
        parts.len() > 0 && d >= parts[0].len() ==> chop(parts, d).len() < parts.len(),
    decreases parts.len(),
{
    if parts.len() == 0 {
        assert(parts.flatten() =~= Seq::<Seq<char>>::empty());
        assert(chans.skip(0) =~= chans);
    } else {
        let p0 = parts[0];
        let len0 = p0.len() as int;
        let rest = parts.drop_first();
        assert(parts.flatten() == p0 + rest.flatten());
        assert(forall|i: int| 0 <= i < rest.len() ==> #[trigger] rest[i] == parts[i + 1]);
        assert(rest.flatten() =~= chans.skip(len0));
        if d >= len0 {
            assert(is_partition::<E>(rest, chans.skip(len0), subscribe, limits));
            lemma_chop::<E>(rest, chans.skip(len0), d - len0, subscribe, limits);
            assert(chans.skip(len0).skip(d - len0) =~= chans.skip(d));
        } else if d <= 0 {
            assert(chans.skip(0) =~= chans);
        } else {
            let head = p0.subrange(d, len0);
            assert(batch_fits::<E>(head, subscribe, limits)) by {
                assert(batch_fits::<E>(p0.subrange(d, len0), subscribe, limits));
            }
            let parts2 = seq![head] + rest;
            assert(parts2[0] == head);
            assert(parts2.drop_first() =~= rest);
            assert(parts2.flatten() == head + rest.flatten());
            assert(head + rest.flatten() =~= chans.skip(d));
            assert(forall|i: int| 0 < i < parts2.len() ==> #[trigger] parts2[i] == rest[i - 1]);
            assert(is_partition::<E>(parts2, chans.skip(d), subscribe, limits));
        }
    }
}

/// From an open batch that is a prefix of the input, greedy packing
/// keeps growing it at least as far as any feasible prefix reaches.
pub proof fn lemma_greedy_reaches<E: CommandEncoder>(
    chans: Seq<Seq<char>>,
    j: int,
    k: int,
    subscribe: bool,
    limits: FrameLimits,
)
    requires
        fits_subrange_closed::<E>(subscribe, limits),
        all_fit_alone::<E>(chans, subscribe, limits),
        1 <= j <= k <= chans.len(),
        batch_fits::<E>(chans.take(k), subscribe, limits),
    ensures
        greedy_batches::<E>(chans.take(j), chans.skip(j), subscribe, limits).len() > 0,
        greedy_batches::<E>(chans.take(j), chans.skip(j), subscribe, limits)[0].len() >= k,
    decreases k - j,
{
    let cur = chans.take(j);
    let rest = chans.skip(j);
    if j == k {
        lemma_greedy_first_batch_head::<E>(cur, rest, subscribe, limits);
    } else {
        assert(rest.len() > 0);
        assert(rest[0] == chans[j]);
        assert(cur.push(rest[0]) =~= chans.take(j + 1));
        assert(batch_fits::<E>(chans.take(k).subrange(0, j + 1), subscribe, limits));
        assert(chans.take(k).subrange(0, j + 1) =~= chans.take(j + 1));
        assert(batch_fits::<E>(cur.push(rest[0]), subscribe, limits));
        assert(greedy_batches::<E>(cur, rest, subscribe, limits) == greedy_batches::<E>(
            cur.push(rest[0]),
            rest.drop_first(),
            subscribe,
            limits,
        ));
        assert(rest.drop_first() =~= chans.skip(j + 1));
        lemma_greedy_reaches::<E>(chans, j + 1, k, subscribe, limits);
    }
}

/// A greedy result decomposes as its first batch followed by a fresh
/// greedy packing of what that batch did not consume.
pub proof fn lemma_greedy_continuation<E: CommandEncoder>(
    cur: Seq<Seq<char>>,
    rest: Seq<Seq<char>>,
    subscribe: bool,
    limits: FrameLimits,
)
    ensures
        ({
            let g = greedy_batches::<E>(cur, rest, subscribe, limits);
            g.len() > 0 ==> g == seq![g[0]] + greedy_batches::<E>(
                Seq::empty(),
                (cur + rest).skip(g[0].len() as int),
                subscribe,
                limits,
            )
        }),
    decreases rest.len(),
{
    let g = greedy_batches::<E>(cur, rest, subscribe, limits);
    if rest.len() == 0 {
        if cur.len() > 0 {
            assert(g == seq![cur]);
            assert((cur + rest).skip(g[0].len() as int) =~= Seq::<Seq<char>>::empty());
            assert(greedy_batches::<E>(
                Seq::empty(),
                (cur + rest).skip(g[0].len() as int),
                subscribe,
                limits,
            ) =~= Seq::<Seq<Seq<char>>>::empty());
            assert(seq![g[0]] + Seq::<Seq<Seq<char>>>::empty() =~= g);
        }
    } else {
        let c = rest[0];
        if cur.len() == 0 || batch_fits::<E>(cur.push(c), subscribe, limits) {
            lemma_greedy_continuation::<E>(cur.push(c), rest.drop_first(), subscribe, limits);
            assert(cur.push(c) + rest.drop_first() =~= cur + rest);
        } else {
            let tail = greedy_batches::<E>(seq![c], rest.drop_first(), subscribe, limits);
            assert(g == seq![cur] + tail);
            assert(g[0] == cur);
            assert((cur + rest).skip(g[0].len() as int) =~= rest);
            assert(Seq::<Seq<char>>::empty().push(c) =~= seq![c]);
            assert(greedy_batches::<E>(Seq::empty(), rest, subscribe, limits) == greedy_batches::<
                E,
            >(Seq::<Seq<char>>::empty().push(c), rest.drop_first(), subscribe, limits));
            assert(seq![g[0]] + tail =~= g);
        }
    }
}

/// Greedy packing is minimal: when feasibility is closed under
/// contiguous sub-batches, no order-preserving split of the input into
/// feasible non-empty batches uses fewer commands than the greedy one.
/// A pure channel-count bound is closed outright
/// ([`lemma_count_limits_subrange_closed`]); for a byte bound the
/// closure holds because a command covering fewer identifiers is no
/// longer, a property of the rendering this development does not state.
pub proof fn lemma_greedy_batches_minimal<E: CommandEncoder>(
    chans: Seq<Seq<char>>,
    subscribe: bool,
    limits: FrameLimits,
    parts: Seq<Seq<Seq<char>>>,
)
    requires
        fits_subrange_closed::<E>(subscribe, limits),
        all_fit_alone::<E>(chans, subscribe, limits),
        is_partition::<E>(parts, chans, subscribe, limits),
    ensures
        greedy_batches::<E>(Seq::empty(), chans, subscribe, limits).len() <= parts.len(),
    decreases chans.len(),
{
    let g = greedy_batches::<E>(Seq::empty(), chans, subscribe, limits);
    if chans.len() == 0 {
        assert(g =~= Seq::<Seq<Seq<char>>>::empty());
    } else {
        if parts.len() == 0 {
            assert(parts.flatten() =~= Seq::<Seq<char>>::empty());
            assert(false);
        }
        let p0 = parts[0];
        let len0 = p0.len() as int;
        assert(parts.flatten() == p0 + parts.drop_first().flatten());
        assert(chans.take(len0) =~= p0);
        assert(batch_fits::<E>(chans.take(len0), subscribe, limits));
        // from the empty open batch, the first identifier always joins
        assert(Seq::<Seq<char>>::empty().push(chans[0]) =~= chans.take(1));
        assert(chans.drop_first() =~= chans.skip(1));
        assert(g == greedy_batches::<E>(chans.take(1), chans.skip(1), subscribe, limits));
        lemma_greedy_reaches::<E>(chans, 1, len0, subscribe, limits);
        assert(g.len() > 0);
        let g0len = g[0].len() as int;
        assert(g0len >= len0);
        lemma_greedy_batches_cover::<E>(Seq::empty(), chans, subscribe, limits);
        assert(g.flatten() == Seq::<Seq<char>>::empty() + chans);
        assert(Seq::<Seq<char>>::empty() + chans =~= chans);
        assert(g.flatten() == g[0] + g.drop_first().flatten());
        assert(g0len <= chans.len());
        lemma_greedy_continuation::<E>(Seq::empty(), chans, subscribe, limits);
        assert(Seq::<Seq<char>>::empty() + chans =~= chans);
        assert(g == seq![g[0]] + greedy_batches::<E>(
            Seq::empty(),
            chans.skip(g0len),
            subscribe,
            limits,
        ));
        lemma_chop::<E>(parts, chans, g0len, subscribe, limits);
        assert(all_fit_alone::<E>(chans.skip(g0len), subscribe, limits)) by {
            assert(forall|i: int|
                0 <= i < chans.skip(g0len).len() ==> #[trigger] chans.skip(g0len)[i] == chans[i
                    + g0len]);
        }
        lemma_greedy_batches_minimal::<E>(
            chans.skip(g0len),
            subscribe,
            limits,
            chop(parts, g0len),
        );
        assert(g.len() == 1 + greedy_batches::<E>(
            Seq::empty(),
            chans.skip(g0len),
            subscribe,
            limits,
        ).len());
        assert(chop(parts, g0len).len() < parts.len());
    }
}

/// With no bounds configured at all, greedy packing emits exactly one
/// batch holding the whole non-empty input.
pub proof fn lemma_greedy_unbounded_single_batch<E: CommandEncoder>(
    cur: Seq<Seq<char>>,
    rest: Seq<Seq<char>>,
    subscribe: bool,
    limits: FrameLimits,
)
    requires
        limits.max_bytes is None,
        limits.max_channels is None,
        cur.len() + rest.len() > 0,
    ensures
        greedy_batches::<E>(cur, rest, subscribe, limits) == seq![cur + rest],
    decreases rest.len(),
{
    if rest.len() == 0 {
        assert(cur + rest =~= cur);
    } else {
        let c = rest[0];
        lemma_greedy_unbounded_single_batch::<E>(cur.push(c), rest.drop_first(), subscribe, limits);
        assert(cur.push(c) + rest.drop_first() =~= cur + rest);
    }
}

/// Decides both bounds for one batch by rendering its command and
/// measuring it.
fn check_batch_fits<E: CommandEncoder>(
    batch: &Vec<String>,
    subscribe: bool,
    limits: &FrameLimits,
) -> (b: bool)
    ensures
        b == batch_fits::<E>(batch.deep_view(), subscribe, *limits),
{
    let count_ok = match limits.max_channels {
        Some(c) => batch.len() <= c,
        None => true,
    };
    if !count_ok {
        return false;
    }
    match limits.max_bytes {
        Some(mb) => {
            let cmd = E::command(batch, subscribe);
            let s = cmd.as_str();
            let n = s.as_bytes().len();
            proof {
                broadcast use vstd::slice::axiom_spec_len;

                assert(s@ == E::spec_command(batch.deep_view(), subscribe));
                assert(n == s.spec_bytes().len());
                assert(s.spec_bytes() == encode_utf8(s@));
            }
            n <= mb
        },
        None => true,
    }
}

/// Splits the identifiers into greedy batches; fails, changing nothing,
/// exactly when some identifier alone breaks the bounds.
pub fn batch_channels<E: CommandEncoder>(
    channels: &Vec<String>,
    subscribe: bool,
    limits: &FrameLimits,
) -> (r: Result<Vec<Vec<String>>, WsError>)
    ensures
        match r {
            Ok(batches) => all_fit_alone::<E>(channels.deep_view(), subscribe, *limits)
                && batches.deep_view() == greedy_batches::<E>(
                Seq::empty(),
                channels.deep_view(),
                subscribe,
                *limits,
            ),
            Err(e) => e == WsError::FrameSizeError && !all_fit_alone::<E>(
                channels.deep_view(),
                subscribe,
                *limits,
            ),
        },
{
    let ghost cs = channels.deep_view();
    let mut i: usize = 0;
    while i < channels.len()
        invariant
            0 <= i <= channels@.len(),
            cs == channels.deep_view(),
            cs.len() == channels@.len(),
            forall|j: int| 0 <= j < i ==> fits_alone::<E>(#[trigger] cs[j], subscribe, *limits),
        decreases channels@.len() - i,
    {
        let mut solo: Vec<String> = Vec::new();
        solo.push(channels[i].clone());
        proof {
            assert(solo.deep_view() =~= seq![cs[i as int]]);
        }
        if !check_batch_fits::<E>(&solo, subscribe, limits) {
            return Err(WsError::FrameSizeError);
        }
        i = i + 1;
    }
    let mut batches: Vec<Vec<String>> = Vec::new();
    let mut cur: Vec<String> = Vec::new();
    let mut i: usize = 0;
    proof {
        assert(batches.deep_view() =~= Seq::<Seq<Seq<char>>>::empty());
        assert(cur.deep_view() =~= Seq::<Seq<char>>::empty());
        assert(cs.skip(0) =~= cs);
        assert(Seq::<Seq<Seq<char>>>::empty() + greedy_batches::<E>(
            Seq::empty(),
            cs,
            subscribe,
            *limits,
        ) =~= greedy_batches::<E>(Seq::empty(), cs, subscribe, *limits));
    }
    while i < channels.len()
        invariant
            0 <= i <= channels@.len(),
            cs == channels.deep_view(),
            cs.len() == channels@.len(),
            all_fit_alone::<E>(cs, subscribe, *limits),
            cur@.len() > 0 ==> batch_fits::<E>(cur.deep_view(), subscribe, *limits),
            greedy_batches::<E>(Seq::empty(), cs, subscribe, *limits) == batches.deep_view()
                + greedy_batches::<E>(cur.deep_view(), cs.skip(i as int), subscribe, *limits),
        decreases channels@.len() - i,
    {
        let ghost rest = cs.skip(i as int);
        let ghost old_cur = cur.deep_view();
        proof {
            assert(rest.len() > 0);
            assert(rest[0] == cs[i as int]);
            assert(rest.drop_first() =~= cs.skip(i as int + 1));
        }
        cur.push(channels[i].clone());
        proof {
            assert(cur.deep_view() =~= old_cur.push(cs[i as int]));
        }
        if cur.len() > 1 && !check_batch_fits::<E>(&cur, subscribe, limits) {
            let c = cur.pop().unwrap();
            proof {
                assert(cur.deep_view() =~= old_cur);
            }
            let ghost closed = cur.deep_view();
            let ghost old_batches = batches.deep_view();
            batches.push(cur);
            cur = Vec::new();
            cur.push(c);
            proof {
                assert(batches.deep_view() =~= old_batches.push(closed));
                assert(cur.deep_view() =~= seq![cs[i as int]]);
                assert(fits_alone::<E>(cs[i as int], subscribe, *limits));
                assert(greedy_batches::<E>(old_cur, rest, subscribe, *limits) == seq![closed]
                    + greedy_batches::<E>(seq![cs[i as int]], rest.drop_first(), subscribe, *limits));
                assert(old_batches.push(closed) + greedy_batches::<E>(
                    cur.deep_view(),
                    cs.skip(i as int + 1),
                    subscribe,
                    *limits,
                ) =~= old_batches + (seq![closed] + greedy_batches::<E>(
                    seq![cs[i as int]],
                    rest.drop_first(),
                    subscribe,
                    *limits,
                )));
            }
        } else {
            proof {
                assert(cur@.len() == old_cur.len() + 1);
                if old_cur.len() == 0 {
                    assert(cur.deep_view() =~= seq![cs[i as int]]);
                    assert(fits_alone::<E>(cs[i as int], subscribe, *limits));
                    assert(batch_fits::<E>(cur.deep_view(), subscribe, *limits));
                }
                assert(greedy_batches::<E>(old_cur, rest, subscribe, *limits) == greedy_batches::<
                    E,
                >(old_cur.push(cs[i as int]), rest.drop_first(), subscribe, *limits));
            }
        }
        i = i + 1;
    }
    proof {
        assert(cs.skip(i as int) =~= Seq::<Seq<char>>::empty());
        if cur.deep_view().len() == 0 {
            assert(greedy_batches::<E>(cur.deep_view(), cs.skip(i as int), subscribe, *limits)
                =~= Seq::<Seq<Seq<char>>>::empty());
        }
    }
    if cur.len() > 0 {
        let ghost old_batches = batches.deep_view();
        let ghost closed = cur.deep_view();
        batches.push(cur);
        proof {
            assert(batches.deep_view() =~= old_batches.push(closed));
            assert(old_batches.push(closed) =~= old_batches + seq![closed]);
        }
    } else {
        proof {
            assert(batches.deep_view() + Seq::<Seq<Seq<char>>>::empty() =~= batches.deep_view());
        }
    }
    Ok(batches)
}

/// Renders the command of each batch, in order.
pub fn encode_batches<E: CommandEncoder>(batches: &Vec<Vec<String>>, subscribe: bool) -> (r: Vec<
    String,
>)
    ensures
        r.deep_view() == batches.deep_view().map_values(
            |b: Seq<Seq<char>>| E::spec_command(b, subscribe),
        ),
{
    let mut out: Vec<String> = Vec::new();
    let mut i: usize = 0;
    while i < batches.len()
        invariant
            0 <= i <= batches@.len(),
            batches.deep_view().len() == batches@.len(),
            out.deep_view().len() == i,
            forall|j: int|
                0 <= j < i ==> out.deep_view()[j] == E::spec_command(
                    #[trigger] batches.deep_view()[j],
                    subscribe,
                ),
        decreases batches@.len() - i,
    {
        out.push(E::command(&batches[i], subscribe));
        i = i + 1;
    }
    proof {
        assert(out.deep_view() =~= batches.deep_view().map_values(
            |b: Seq<Seq<char>>| E::spec_command(b, subscribe),
        ));
    }
    out
}

/// Batches the identifiers and renders their commands: the executable face
/// of [`spec_batched_commands`].
pub fn channels_to_batched_commands<E: CommandEncoder>(
    channels: &Vec<String>,
    subscribe: bool,
    limits: &FrameLimits,
) -> (r: Result<Vec<String>, WsError>)
    ensures
        match r {
            Ok(cmds) => all_fit_alone::<E>(channels.deep_view(), subscribe, *limits)
                && cmds.deep_view() == spec_batched_commands::<E>(
                channels.deep_view(),
                subscribe,
                *limits,
            ),
            Err(e) => e == WsError::FrameSizeError && !all_fit_alone::<E>(
                channels.deep_view(),
                subscribe,
                *limits,
            ),
        },
{
    match batch_channels::<E>(channels, subscribe, limits) {
        Ok(batches) => Ok(encode_batches::<E>(&batches, subscribe)),
        Err(e) => Err(e),
    }
}

} // verus!
