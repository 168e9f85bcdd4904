//! The store of pending challenges: bounded lifetime, one validation each.

use vstd::prelude::*;
use vstd::string::*;

use crate::digest::fingerprint;
use crate::simple_captcha::{
    accepts, sealed, unix_millis, CaptchaModel, SimpleCaptcha, SALT_LENGTH,
};

verus! {

/// Age, in seconds, beyond which a challenge is no longer valid.
pub const EXPIRY_SECONDS: u64 = 300;

/// Why a validation failed.
#[derive(Debug, Clone, Copy, PartialEq, Eq, Structural)]
pub enum CaptchaError {
    /// No pending challenge has the identifier.
    NotFound,
    /// The challenge was found but is older than the expiry time.
    Expired,
    /// The answer does not open the challenge's commitment.
    Invalid,
}

impl CaptchaError {
    /// The message that goes with the error.
    pub fn message(&self) -> (text: String)
        ensures
            text@ == match *self {
                CaptchaError::NotFound => "Captcha not found"@,
                CaptchaError::Expired => "Captcha timed out"@,
                CaptchaError::Invalid => "Captcha not valid"@,
            },
    {
        match self {
            CaptchaError::NotFound => String::from_str("Captcha not found"),
            CaptchaError::Expired => String::from_str("Captcha timed out"),
            CaptchaError::Invalid => String::from_str("Captcha not valid"),
        }
    }
}

/// Whether a challenge issued at `issued` is past the expiry time at `now`,
/// both in milliseconds. A challenge dated after `now` is not.
pub open spec fn is_outdated(issued: u64, now: u64) -> bool {
    now - issued > EXPIRY_SECONDS * 1000
}

/// The pending challenges of `pending` that are not outdated at `now`.
pub open spec fn swept(pending: Map<Seq<char>, CaptchaModel>, now: u64) -> Map<
    Seq<char>,
    CaptchaModel,
> {
    Map::new(
        |id: Seq<char>| pending.contains_key(id) && !is_outdated(pending[id].timestamp, now),
        |id: Seq<char>| pending[id],
    )
}

/// The pending challenges after `captcha` is registered at `now`: the
/// outdated ones leave, then `captcha` takes the place under its identifier.
pub open spec fn inserted(
    pending: Map<Seq<char>, CaptchaModel>,
    captcha: CaptchaModel,
    now: u64,
) -> Map<Seq<char>, CaptchaModel> {
    swept(pending, now).insert(captcha.image_hash, captcha)
}

/// The pending challenges after a validation of `hash` whose sweep ran at
/// `swept_at`: the outdated ones leave, and so does `hash`, whatever the
/// outcome.
pub open spec fn validated(
    pending: Map<Seq<char>, CaptchaModel>,
    hash: Seq<char>,
    swept_at: u64,
) -> Map<Seq<char>, CaptchaModel> {
    swept(pending, swept_at).remove(hash)
}

/// The outcome of validating `code` against `hash`, where the sweep ran at
/// `swept_at` and the age of the challenge was taken at `checked_at`.
pub open spec fn verdict(
    pending: Map<Seq<char>, CaptchaModel>,
    hash: Seq<char>,
    code: Seq<char>,
    swept_at: u64,
    checked_at: u64,
) -> Result<(), CaptchaError> {
    let live = swept(pending, swept_at);
    if !live.contains_key(hash) {
        Err(CaptchaError::NotFound)
    } else if is_outdated(live[hash].timestamp, checked_at) {
        Err(CaptchaError::Expired)
    } else if accepts(live[hash], code) {
        Ok(())
    } else {
        Err(CaptchaError::Invalid)
    }
}

/// A validation never succeeds on a challenge that is outdated when its age
/// is taken, whatever the sweep did and whatever the answer is.
pub proof fn lemma_outdated_never_validates(
    pending: Map<Seq<char>, CaptchaModel>,
    hash: Seq<char>,
    code: Seq<char>,
    swept_at: u64,
    checked_at: u64,
)
    requires
        pending.contains_key(hash),
        is_outdated(pending[hash].timestamp, checked_at),
    ensures
        verdict(pending, hash, code, swept_at, checked_at) is Err,
{
}

/// What a validation answers for a pending challenge, by its age. Outdated at
/// the sweep, it is gone before the lookup: `NotFound`. Kept by the sweep and
/// outdated when its age is taken: `Expired`. Outdated at neither time: `Ok`
/// where the answer opens the commitment, `Invalid` where it does not.
pub proof fn lemma_verdict_by_age(
    pending: Map<Seq<char>, CaptchaModel>,
    hash: Seq<char>,
    code: Seq<char>,
    swept_at: u64,
    checked_at: u64,
)
    requires
        pending.contains_key(hash),
    ensures
        verdict(pending, hash, code, swept_at, checked_at) == (if is_outdated(
            pending[hash].timestamp,
            swept_at,
        ) {
            Err::<(), CaptchaError>(CaptchaError::NotFound)
        } else if is_outdated(pending[hash].timestamp, checked_at) {
            Err::<(), CaptchaError>(CaptchaError::Expired)
        } else if accepts(pending[hash], code) {
            Ok::<(), CaptchaError>(())
        } else {
            Err::<(), CaptchaError>(CaptchaError::Invalid)
        }),
{
}

/// A challenge issued at `issued` and kept by the sweep is `Expired` when its
/// age is taken 301 seconds after issue, and validates with an accepted answer
/// when both clock readings come 299 seconds after issue.
pub proof fn lemma_expiry(
    pending: Map<Seq<char>, CaptchaModel>,
    hash: Seq<char>,
    code: Seq<char>,
    swept_at: u64,
)
    requires
        pending.contains_key(hash),
        pending[hash].timestamp + 301_000 <= u64::MAX,
        !is_outdated(pending[hash].timestamp, swept_at),
    ensures
        verdict(pending, hash, code, swept_at, (pending[hash].timestamp + 301_000) as u64) == Err::<
            (),
            CaptchaError,
        >(CaptchaError::Expired),
        accepts(pending[hash], code) ==> verdict(
            pending,
            hash,
            code,
            (pending[hash].timestamp + 299_000) as u64,
            (pending[hash].timestamp + 299_000) as u64,
        ) == Ok::<(), CaptchaError>(()),
{
}

/// Once an identifier has been validated, with whatever outcome, a further
/// validation of it finds nothing.
pub proof fn lemma_single_use(
    pending: Map<Seq<char>, CaptchaModel>,
    hash: Seq<char>,
    first_swept_at: u64,
    code: Seq<char>,
    swept_at: u64,
    checked_at: u64,
)
    ensures
        verdict(validated(pending, hash, first_swept_at), hash, code, swept_at, checked_at) == Err::<
            (),
            CaptchaError,
        >(CaptchaError::NotFound),
{
}

/// Where every pending challenge was issued by `issued`, registering one
/// more at a time that is past the expiry of `issued` leaves the newcomer as
/// the only entry.
pub proof fn lemma_sweep_bounds_growth(
    pending: Map<Seq<char>, CaptchaModel>,
    issued: u64,
    captcha: CaptchaModel,
    now: u64,
)
    requires
        forall|id: Seq<char>|
            pending.contains_key(id) ==> (#[trigger] pending[id]).timestamp <= issued,
        is_outdated(issued, now),
    ensures
        inserted(pending, captcha, now) == Map::<Seq<char>, CaptchaModel>::empty().insert(
            captcha.image_hash,
            captcha,
        ),
        inserted(pending, captcha, now).dom().finite(),
        inserted(pending, captcha, now).len() == 1,
{
    let only = Map::<Seq<char>, CaptchaModel>::empty().insert(captcha.image_hash, captcha);
    assert forall|id: Seq<char>| !swept(pending, now).contains_key(id) by {
        if pending.contains_key(id) {
            assert(pending[id].timestamp <= issued);
        }
    }
    assert(inserted(pending, captcha, now) =~= only);
    assert(only.dom() =~= Set::<Seq<char>>::empty().insert(captcha.image_hash));
}

/// A registered challenge, validated while it is not outdated with an answer
/// that it accepts, gives `Ok`, and a further validation finds nothing.
pub proof fn lemma_round_trip(
    pending: Map<Seq<char>, CaptchaModel>,
    captcha: CaptchaModel,
    now: u64,
    answer: Seq<char>,
    swept_at: u64,
    checked_at: u64,
    again_swept_at: u64,
    again_checked_at: u64,
)
    requires
        accepts(captcha, answer),
        !is_outdated(captcha.timestamp, swept_at),
        !is_outdated(captcha.timestamp, checked_at),
    ensures
        verdict(
            inserted(pending, captcha, now),
            captcha.image_hash,
            answer,
            swept_at,
            checked_at,
        ) == Ok::<(), CaptchaError>(()),
        verdict(
            validated(inserted(pending, captcha, now), captcha.image_hash, swept_at),
            captcha.image_hash,
            answer,
            again_swept_at,
            again_checked_at,
        ) == Err::<(), CaptchaError>(CaptchaError::NotFound),
{
}

/// A sweep removes outdated challenges and nothing else, and a second sweep
/// at the same time changes nothing.
pub proof fn lemma_swept_keeps_fresh(pending: Map<Seq<char>, CaptchaModel>, now: u64)
    ensures
        swept(pending, now).submap_of(pending),
        forall|id: Seq<char>|
            pending.contains_key(id) && !is_outdated(pending[id].timestamp, now) ==> #[trigger] swept(
                pending,
                now,
            ).contains_key(id),
        swept(swept(pending, now), now) == swept(pending, now),
{
    assert(swept(swept(pending, now), now) =~= swept(pending, now));
}

spec fn holds(entries: Seq<SimpleCaptcha>, id: Seq<char>, i: int) -> bool {
    0 <= i < entries.len() && entries[i].image_hash@ == id
}

spec fn distinct(entries: Seq<SimpleCaptcha>) -> bool {
    forall|i: int, j: int|
        0 <= i < entries.len() && 0 <= j < entries.len() && i != j
            ==> #[trigger] entries[i].image_hash@ != #[trigger] entries[j].image_hash@
}

spec fn as_map(entries: Seq<SimpleCaptcha>) -> Map<Seq<char>, CaptchaModel> {
    Map::new(
        |id: Seq<char>| exists|i: int| holds(entries, id, i),
        |id: Seq<char>| entries[choose|i: int| holds(entries, id, i)]@,
    )
}

proof fn lemma_entry(entries: Seq<SimpleCaptcha>, i: int)
    requires
        distinct(entries),
        0 <= i < entries.len(),
    ensures
        as_map(entries).contains_key(entries[i].image_hash@),
        as_map(entries)[entries[i].image_hash@] == entries[i]@,
{
    let id = entries[i].image_hash@;
    assert(holds(entries, id, i));
    let j = choose|j: int| holds(entries, id, j);
    assert(holds(entries, id, j));
    assert(j == i);
}

proof fn lemma_remove(entries: Seq<SimpleCaptcha>, i: int)
    requires
        distinct(entries),
        0 <= i < entries.len(),
    ensures
        distinct(entries.remove(i)),
        as_map(entries.remove(i)) == as_map(entries).remove(entries[i].image_hash@),
{
    let rest = entries.remove(i);
    let gone = entries[i].image_hash@;
    let target = as_map(entries).remove(gone);
    assert forall|a: int, b: int| 0 <= a < rest.len() && 0 <= b < rest.len() && a != b implies
        #[trigger] rest[a].image_hash@ != #[trigger] rest[b].image_hash@ by {
        let a0 = if a < i { a } else { a + 1 };
        let b0 = if b < i { b } else { b + 1 };
        assert(rest[a] == entries[a0] && rest[b] == entries[b0]);
    }
    assert forall|id: Seq<char>| #[trigger]
        as_map(rest).dom().contains(id) == target.dom().contains(id) by {
        if as_map(rest).dom().contains(id) {
            let a = choose|a: int| holds(rest, id, a);
            let a0 = if a < i { a } else { a + 1 };
            assert(rest[a] == entries[a0]);
            assert(holds(entries, id, a0));
        }
        if target.dom().contains(id) {
            let b = choose|b: int| holds(entries, id, b);
            let b0 = if b < i { b } else { b - 1 };
            assert(rest[b0] == entries[b]);
            assert(holds(rest, id, b0));
        }
    }
    assert forall|id: Seq<char>| as_map(rest).dom().contains(id) implies #[trigger] as_map(
        rest,
    )[id] == target[id] by {
        let a = choose|a: int| holds(rest, id, a);
        let a0 = if a < i { a } else { a + 1 };
        assert(rest[a] == entries[a0]);
        lemma_entry(entries, a0);
        lemma_entry(rest, a);
    }
    assert(as_map(rest) =~= target);
}

proof fn lemma_push(entries: Seq<SimpleCaptcha>, captcha: SimpleCaptcha)
    requires
        distinct(entries),
        !as_map(entries).contains_key(captcha.image_hash@),
    ensures
        distinct(entries.push(captcha)),
        as_map(entries.push(captcha)) == as_map(entries).insert(captcha.image_hash@, captcha@),
{
    let more = entries.push(captcha);
    let last = entries.len() as int;
    let target = as_map(entries).insert(captcha.image_hash@, captcha@);
    assert forall|a: int, b: int| 0 <= a < more.len() && 0 <= b < more.len() && a != b implies
        #[trigger] more[a].image_hash@ != #[trigger] more[b].image_hash@ by {
        if a < last {
            assert(holds(entries, entries[a].image_hash@, a));
        }
        if b < last {
            assert(holds(entries, entries[b].image_hash@, b));
        }
    }
    assert forall|id: Seq<char>| #[trigger]
        as_map(more).dom().contains(id) == target.dom().contains(id) by {
        if as_map(more).dom().contains(id) {
            let a = choose|a: int| holds(more, id, a);
            if a < last {
                assert(holds(entries, id, a));
            }
        }
        if target.dom().contains(id) {
            if id == captcha.image_hash@ {
                assert(holds(more, id, last));
            } else {
                let b = choose|b: int| holds(entries, id, b);
                assert(holds(more, id, b));
            }
        }
    }
    assert forall|id: Seq<char>| as_map(more).dom().contains(id) implies #[trigger] as_map(
        more,
    )[id] == target[id] by {
        let a = choose|a: int| holds(more, id, a);
        lemma_entry(more, a);
        if a < last {
            assert(holds(entries, id, a));
            lemma_entry(entries, a);
        }
    }
    assert(as_map(more) =~= target);
}

proof fn lemma_finite(entries: Seq<SimpleCaptcha>)
    ensures
        as_map(entries).dom().finite(),
    decreases entries.len(),
{
    if entries.len() == 0 {
        assert(as_map(entries).dom() =~= Set::empty());
    } else {
        let front = entries.drop_last();
        let last = entries.last();
        lemma_finite(front);
        assert forall|id: Seq<char>| #[trigger]
            as_map(entries).dom().contains(id) == as_map(front).dom().insert(
                last.image_hash@,
            ).contains(id) by {
            if as_map(entries).dom().contains(id) && id != last.image_hash@ {
                let a = choose|a: int| holds(entries, id, a);
                assert(holds(front, id, a));
            }
            if as_map(front).dom().contains(id) {
                let b = choose|b: int| holds(front, id, b);
                assert(holds(entries, id, b));
            }
            if id == last.image_hash@ {
                assert(holds(entries, id, entries.len() - 1));
            }
        }
        assert(as_map(entries).dom() =~= as_map(front).dom().insert(last.image_hash@));
    }
}

proof fn lemma_size(entries: Seq<SimpleCaptcha>)
    requires
        distinct(entries),
    ensures
        as_map(entries).dom().finite(),
        as_map(entries).dom().len() == entries.len(),
    decreases entries.len(),
{
    if entries.len() == 0 {
        assert(as_map(entries).dom() =~= Set::empty());
    } else {
        let front = entries.drop_last();
        let last = entries.last();
        assert forall|i: int, j: int|
            0 <= i < front.len() && 0 <= j < front.len() && i != j implies
            #[trigger] front[i].image_hash@ != #[trigger] front[j].image_hash@ by {
            assert(front[i] == entries[i] && front[j] == entries[j]);
        }
        lemma_size(front);
        assert(!as_map(front).contains_key(last.image_hash@)) by {
            if as_map(front).contains_key(last.image_hash@) {
                let a = choose|a: int| holds(front, last.image_hash@, a);
                assert(front[a] == entries[a]);
                assert(entries[a].image_hash@ == entries[entries.len() - 1].image_hash@);
            }
        }
        lemma_push(front, last);
        assert(front.push(last) =~= entries);
        assert(as_map(entries).dom() =~= as_map(front).dom().insert(last.image_hash@));
    }
}

proof fn lemma_swept_drops_outdated(pending: Map<Seq<char>, CaptchaModel>, id: Seq<char>, now: u64)
    requires
        pending.contains_key(id),
        is_outdated(pending[id].timestamp, now),
    ensures
        swept(pending.remove(id), now) == swept(pending, now),
{
    assert(swept(pending.remove(id), now) =~= swept(pending, now));
}

fn outdated(issued: u64, now: u64) -> (gone: bool)
    ensures
        gone == is_outdated(issued, now),
{
    now > issued && now - issued > EXPIRY_SECONDS * 1000
}

/// The pending challenges, each under its identifier.
#[derive(Debug)]
pub struct CaptchaList {
    captchas: Vec<SimpleCaptcha>,
}

impl View for CaptchaList {
    type V = Map<Seq<char>, CaptchaModel>;

    closed spec fn view(&self) -> Map<Seq<char>, CaptchaModel> {
        as_map(self.captchas@)
    }
}

impl CaptchaList {
    #[verifier::type_invariant]
    spec fn one_per_identifier(&self) -> bool {
        distinct(self.captchas@)
    }

    /// A store with no pending challenge.
    pub fn new() -> (list: CaptchaList)
        ensures
            list@ == Map::<Seq<char>, CaptchaModel>::empty(),
    {
        let list = CaptchaList { captchas: Vec::new() };
        assert(list@ =~= Map::<Seq<char>, CaptchaModel>::empty());
        list
    }

    /// The number of pending challenges.
    pub fn len(&self) -> (count: usize)
        ensures
            self@.dom().finite(),
            count == self@.len(),
    {
        proof {
            use_type_invariant(self);
            lemma_size(self.captchas@);
        }
        self.captchas.len()
    }

    /// Registers `captcha` at time `now`, in milliseconds: the outdated
    /// challenges leave first, then `captcha` takes the place under its
    /// identifier, whether or not one was there.
    pub fn insert_at(&mut self, captcha: SimpleCaptcha, now: u64)
        ensures
            final(self)@ == inserted(old(self)@, captcha@, now),
    {
        proof {
            use_type_invariant(&*self);
        }
        let mut entries: Vec<SimpleCaptcha> = Vec::new();
        core::mem::swap(&mut self.captchas, &mut entries);
        sweep(&mut entries, now);
        if let Some(i) = position(&entries, &captcha.image_hash) {
            proof {
                lemma_remove(entries@, i as int);
            }
            entries.remove(i);
        }
        proof {
            lemma_push(entries@, captcha);
            assert(swept(old(self)@, now).remove(captcha.image_hash@).insert(
                captcha.image_hash@,
                captcha@,
            ) =~= inserted(old(self)@, captcha@, now));
        }
        entries.push(captcha);
        self.captchas = entries;
    }

    /// Registers `captcha` at the current time. Whatever the clock says, the
    /// store afterwards is the one that `insert_at` leaves for some time.
    pub fn insert(&mut self, captcha: SimpleCaptcha)
        ensures
            exists|now: u64| final(self)@ == inserted(old(self)@, captcha@, now),
            final(self)@.contains_key(captcha@.image_hash),
            final(self)@[captcha@.image_hash] == captcha@,
    {
        let now = unix_millis();
        self.insert_at(captcha, now);
    }

    /// Issues the challenge for a rendered picture and the code it shows:
    /// makes it with a fresh salt at the current time, registers it, and gives
    /// its identifier and the picture.
    pub fn issue(&mut self, chars: &str, image_base64: String) -> (handle: (String, String))
        ensures
            handle.0@ == fingerprint(image_base64@),
            handle.1@ == image_base64@,
            exists|salt: Seq<char>, issued: u64, now: u64|
                salt.len() == SALT_LENGTH && final(self)@ == #[trigger] inserted(
                    old(self)@,
                    sealed(image_base64@, chars@, salt, issued),
                    now,
                ),
    {
        let captcha = SimpleCaptcha::new(chars, image_base64);
        let handle = (captcha.image_hash.clone(), captcha.image_base64.clone());
        let now = unix_millis();
        self.insert_at(captcha, now);
        proof {
            let salt = captcha@.code_salt;
            let issued = captcha@.timestamp;
            assert(captcha@ == sealed(image_base64@, chars@, salt, issued));
            assert(salt.len() == SALT_LENGTH && final(self)@ == inserted(
                old(self)@,
                sealed(image_base64@, chars@, salt, issued),
                now,
            ));
        }
        handle
    }

    /// Validates `code` against the challenge `hash`, with the sweep run at
    /// `swept_at` and the age of the challenge taken at `checked_at`, both in
    /// milliseconds. The challenge leaves the store whatever the outcome.
    pub fn validate_at(
        &mut self,
        hash: String,
        code: String,
        swept_at: u64,
        checked_at: u64,
    ) -> (outcome: Result<(), CaptchaError>)
        ensures
            outcome == verdict(old(self)@, hash@, code@, swept_at, checked_at),
            final(self)@ == validated(old(self)@, hash@, swept_at),
    {
        proof {
            use_type_invariant(&*self);
        }
        let mut entries: Vec<SimpleCaptcha> = Vec::new();
        core::mem::swap(&mut self.captchas, &mut entries);
        sweep(&mut entries, swept_at);
        match position(&entries, &hash) {
            None => {
                assert(as_map(entries@) =~= validated(old(self)@, hash@, swept_at));
                self.captchas = entries;
                Err(CaptchaError::NotFound)
            },
            Some(i) => {
                proof {
                    lemma_entry(entries@, i as int);
                    lemma_remove(entries@, i as int);
                }
                let entry = entries.remove(i);
                self.captchas = entries;
                if outdated(entry.timestamp, checked_at) {
                    Err(CaptchaError::Expired)
                } else if entry.check(code) {
                    Ok(())
                } else {
                    Err(CaptchaError::Invalid)
                }
            },
        }
    }

    /// Validates `code` against the challenge `hash` at the current time. The
    /// clock is read for the sweep and again for the age of the challenge;
    /// whatever it says, outcome and store are those of `validate_at` for some
    /// two times.
    pub fn validate(&mut self, hash: String, code: String) -> (outcome: Result<(), CaptchaError>)
        ensures
            exists|swept_at: u64, checked_at: u64|
                outcome == #[trigger] verdict(old(self)@, hash@, code@, swept_at, checked_at)
                    && final(self)@ == validated(old(self)@, hash@, swept_at),
            !final(self)@.contains_key(hash@),
            outcome is Ok ==> old(self)@.contains_key(hash@) && accepts(old(self)@[hash@], code@),
            !old(self)@.contains_key(hash@) ==> outcome == Err::<(), CaptchaError>(
                CaptchaError::NotFound,
            ),
    {
        let swept_at = unix_millis();
        let checked_at = unix_millis();
        self.validate_at(hash, code, swept_at, checked_at)
    }
}

/// A store holds finitely many challenges, each under its own identifier.
pub proof fn lemma_store_keyed(list: CaptchaList)
    ensures
        list@.dom().finite(),
        forall|id: Seq<char>| list@.contains_key(id) ==> (#[trigger] list@[id]).image_hash == id,
{
    lemma_finite(list.captchas@);
    assert forall|id: Seq<char>| list@.contains_key(id) implies (#[trigger] list@[id]).image_hash
        == id by {
        let i = choose|i: int| holds(list.captchas@, id, i);
        assert(holds(list.captchas@, id, i));
    }
}

/// Removes every challenge that is outdated at `now`, in milliseconds.
pub fn clear_outdated(captchas: &mut CaptchaList, now: u64)
    ensures
        final(captchas)@ == swept(old(captchas)@, now),
{
    proof {
        use_type_invariant(&*captchas);
    }
    let mut entries: Vec<SimpleCaptcha> = Vec::new();
    core::mem::swap(&mut captchas.captchas, &mut entries);
    sweep(&mut entries, now);
    captchas.captchas = entries;
}

fn position(entries: &Vec<SimpleCaptcha>, hash: &String) -> (found: Option<usize>)
    ensures
        match found {
            Some(i) => i < entries.len() && entries[i as int].image_hash@ == hash@,
            None => !as_map(entries@).contains_key(hash@),
        },
{
    let mut i: usize = 0;
    while i < entries.len()
        invariant
            i <= entries.len(),
            forall|j: int| 0 <= j < i ==> entries[j].image_hash@ != hash@,
        decreases entries.len() - i,
    {
        if entries[i].image_hash == *hash {
            return Some(i);
        }
        i += 1;
    }
    proof {
        if as_map(entries@).contains_key(hash@) {
            let j = choose|j: int| holds(entries@, hash@, j);
            assert(holds(entries@, hash@, j));
        }
    }
    None
}

fn sweep(entries: &mut Vec<SimpleCaptcha>, now: u64)
    requires
        distinct(old(entries)@),
    ensures
        distinct(final(entries)@),
        as_map(final(entries)@) == swept(as_map(old(entries)@), now),
{
    let mut i: usize = 0;
    while i < entries.len()
        invariant
            i <= entries.len(),
            distinct(entries@),
            swept(as_map(entries@), now) == swept(as_map(old(entries)@), now),
            forall|j: int| 0 <= j < i ==> !is_outdated(entries[j].timestamp, now),
        decreases entries.len() - i,
    {
        if outdated(entries[i].timestamp, now) {
            proof {
                lemma_entry(entries@, i as int);
                lemma_remove(entries@, i as int);
                lemma_swept_drops_outdated(as_map(entries@), entries[i as int].image_hash@, now);
            }
            entries.remove(i);
        } else {
            i += 1;
        }
    }
    proof {
        assert forall|id: Seq<char>| as_map(entries@).contains_key(id) implies !is_outdated(
            as_map(entries@)[id].timestamp,
            now,
        ) by {
            let j = choose|j: int| holds(entries@, id, j);
            lemma_entry(entries@, j);
        }
        assert(as_map(entries@) =~= swept(as_map(entries@), now));
    }
}

} // verus!
