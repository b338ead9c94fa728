//! The local player's movement decisions: the keys held, sprinting, and
//! toggling flight by tapping jump twice.

use vstd::prelude::*;

verus! {

/// Whether the player sprints: the sprint key held while moving forward,
/// neither backing up nor sneaking.
pub fn is_sprinting(sprint: bool, forward: bool, backward: bool, sneak: bool) -> (r: bool)
    ensures
        r == (sprint && forward && !backward && !sneak),
{
    sprint && forward && !backward && !sneak
}

/// Whether the time from releasing jump to pressing it again, in
/// nanoseconds, is a double tap: under a second, and at most
/// `double_jump_ms` whole milliseconds.
pub open spec fn spec_is_double_tap(gap_ns: u64, double_jump_ms: u64) -> bool {
    gap_ns < 1_000_000_000 && gap_ns / 1_000_000 <= double_jump_ms
}

/// An action key the movement logic reads; `Other` stands for any other
/// action, by its number.
#[derive(Clone, Copy, Debug, PartialEq, Eq, Structural)]
pub enum ActionKey {
    Forward,
    Backward,
    Left,
    Right,
    Jump,
    Sneak,
    Sprint,
    OpenInv,
    Other(u32),
}

/// The keys recorded by a sequence of (key, held) entries, a later entry of
/// a key replacing an earlier one.
pub open spec fn keys_map(entries: Seq<(ActionKey, bool)>) -> Map<ActionKey, bool>
    decreases entries.len(),
{
    if entries.len() == 0 {
        Map::empty()
    } else {
        keys_map(entries.drop_last()).insert(entries.last().0, entries.last().1)
    }
}

/// No key has two entries.
pub open spec fn keys_distinct(entries: Seq<(ActionKey, bool)>) -> bool {
    forall|i: int, j: int|
        0 <= i < j < entries.len() ==> #[trigger] entries[i].0 != #[trigger] entries[j].0
}

proof fn lemma_keys_map(entries: Seq<(ActionKey, bool)>)
    requires
        keys_distinct(entries),
    ensures
        keys_map(entries).dom().finite(),
        keys_map(entries).dom().len() == entries.len(),
        forall|i: int|
            0 <= i < entries.len() ==> keys_map(entries).contains_key(#[trigger] entries[i].0)
                && keys_map(entries)[entries[i].0] == entries[i].1,
        forall|k: ActionKey|
            #[trigger] keys_map(entries).contains_key(k) ==> exists|i: int|
                0 <= i < entries.len() && entries[i].0 == k,
    decreases entries.len(),
{
    if entries.len() > 0 {
        let init = entries.drop_last();
        assert(keys_distinct(init));
        lemma_keys_map(init);
        let k = entries.last().0;
        if keys_map(init).contains_key(k) {
            let i = choose|i: int| 0 <= i < init.len() && init[i].0 == k;
            assert(entries[i].0 == entries[entries.len() - 1].0);
        }
        assert forall|i: int| 0 <= i < entries.len() implies keys_map(entries).contains_key(
            #[trigger] entries[i].0,
        ) && keys_map(entries)[entries[i].0] == entries[i].1 by {
            if i < entries.len() - 1 {
                assert(init[i] == entries[i]);
                assert(entries[i].0 != entries[entries.len() - 1].0);
            }
        }
        assert forall|k: ActionKey| #[trigger]
            keys_map(entries).contains_key(k) implies exists|i: int|
            0 <= i < entries.len() && entries[i].0 == k by {
            if k != entries.last().0 {
                let i = choose|i: int| 0 <= i < init.len() && init[i].0 == k;
                assert(entries[i] == init[i]);
            } else {
                assert(entries[entries.len() - 1].0 == k);
            }
        }
    }
}

/// `keys` with every movement key recorded as let go: back, forward,
/// right, left, jump, sneak and sprint.
pub open spec fn movement_keys_released(keys: Map<ActionKey, bool>) -> Map<ActionKey, bool> {
    keys.insert(ActionKey::Backward, false).insert(ActionKey::Forward, false).insert(
        ActionKey::Right,
        false,
    ).insert(ActionKey::Left, false).insert(ActionKey::Jump, false).insert(
        ActionKey::Sneak,
        false,
    ).insert(ActionKey::Sprint, false)
}

/// The keys recorded as held or let go, each at most once (a hash map of
/// action keys in the game).
pub struct PressedKeys {
    entries: Vec<(ActionKey, bool)>,
}

impl View for PressedKeys {
    type V = Map<ActionKey, bool>;

    closed spec fn view(&self) -> Map<ActionKey, bool> {
        keys_map(self.entries@)
    }
}

impl PressedKeys {
    /// Each key is recorded at most once.
    pub closed spec fn wf(&self) -> bool {
        keys_distinct(self.entries@)
    }

    /// No key recorded.
    pub fn new() -> (k: PressedKeys)
        ensures
            k.wf(),
            k@ == Map::<ActionKey, bool>::empty(),
    {
        PressedKeys { entries: Vec::new() }
    }

    /// How many keys are recorded, held or not.
    pub fn len(&self) -> (r: usize)
        requires
            self.wf(),
        ensures
            r == self@.dom().len(),
    {
        proof {
            lemma_keys_map(self.entries@);
        }
        self.entries.len()
    }

    /// Whether `key` is recorded as held.
    pub fn is_pressed(&self, key: ActionKey) -> (r: bool)
        requires
            self.wf(),
        ensures
            r == (self@.contains_key(key) && self@[key]),
    {
        proof {
            lemma_keys_map(self.entries@);
        }
        let mut i: usize = 0;
        while i < self.entries.len()
            invariant
                i <= self.entries@.len(),
                keys_distinct(self.entries@),
                forall|j: int| 0 <= j < i ==> #[trigger] self.entries@[j].0 != key,
            decreases self.entries@.len() - i,
        {
            if self.entries[i].0 == key {
                proof {
                    lemma_keys_map(self.entries@);
                }
                return self.entries[i].1;
            }
            i = i + 1;
        }
        proof {
            if keys_map(self.entries@).contains_key(key) {
                let j = choose|j: int| 0 <= j < self.entries@.len() && self.entries@[j].0 == key;
            }
        }
        false
    }

    /// Records `key` as held or let go.
    pub fn set(&mut self, key: ActionKey, held: bool)
        requires
            old(self).wf(),
        ensures
            final(self).wf(),
            final(self)@ == old(self)@.insert(key, held),
    {
        proof {
            lemma_keys_map(self.entries@);
        }
        let ghost before = self.entries@;
        let mut i: usize = 0;
        while i < self.entries.len()
            invariant
                i <= self.entries@.len(),
                self.entries@ == before,
                before == old(self).entries@,
                keys_distinct(before),
                forall|j: int| 0 <= j < i ==> #[trigger] before[j].0 != key,
            decreases self.entries@.len() - i,
        {
            if self.entries[i].0 == key {
                self.entries.set(i, (key, held));
                proof {
                    let after = self.entries@;
                    lemma_keys_map(before);
                    assert(keys_distinct(after)) by {
                        assert forall|a: int, b: int| 0 <= a < b < after.len() implies #[trigger] after[a].0
                            != #[trigger] after[b].0 by {
                            assert(before[a].0 == after[a].0 && before[b].0 == after[b].0);
                        }
                    }
                    lemma_keys_map(after);
                    assert(keys_map(after) =~= keys_map(before).insert(key, held)) by {
                        assert forall|k: ActionKey| #[trigger] keys_map(after).contains_key(k)
                            implies keys_map(before).insert(key, held).contains_key(k) by {
                            let j = choose|j: int| 0 <= j < after.len() && after[j].0 == k;
                            if j != i {
                                assert(after[j] == before[j]);
                            }
                        }
                        assert forall|k: ActionKey| #[trigger] keys_map(before).insert(
                            key,
                            held,
                        ).contains_key(k) implies keys_map(after).contains_key(k)
                            && keys_map(after)[k] == keys_map(before).insert(key, held)[k] by {
                            if k != key {
                                let j = choose|j: int| 0 <= j < before.len() && before[j].0 == k;
                                assert(after[j] == before[j]);
                                assert(after[j].0 == k);
                            } else {
                                assert(after[i as int] == (key, held));
                                assert(after[i as int].0 == key);
                            }
                        }
                    }
                }
                return;
            }
            i = i + 1;
        }
        self.entries.push((key, held));
        proof {
            let after = self.entries@;
            assert(after.drop_last() =~= before);
            assert(keys_distinct(after)) by {
                assert forall|a: int, b: int| 0 <= a < b < after.len() implies #[trigger] after[a].0
                    != #[trigger] after[b].0 by {
                    if b < before.len() {
                        assert(before[a] == after[a] && before[b] == after[b]);
                    } else {
                        assert(before[a] == after[a]);
                    }
                }
            }
        }
    }

    /// Lets go of every movement key: back, forward, right, left, jump,
    /// sneak and sprint.
    pub fn release_movement_keys(&mut self)
        requires
            old(self).wf(),
        ensures
            final(self).wf(),
            final(self)@ == movement_keys_released(old(self)@),
    {
        self.set(ActionKey::Backward, false);
        self.set(ActionKey::Forward, false);
        self.set(ActionKey::Right, false);
        self.set(ActionKey::Left, false);
        self.set(ActionKey::Jump, false);
        self.set(ActionKey::Sneak, false);
        self.set(ActionKey::Sprint, false);
    }
}

/// The keys after a tick in which the game is `in_game` or not: outside
/// the game the movement keys are let go, when `spec_should_release`
/// decides so from the recorded keys.
pub open spec fn keys_after_release(keys: Map<ActionKey, bool>, in_game: bool) -> Map<
    ActionKey,
    bool,
> {
    if spec_should_release(
        in_game,
        keys.dom().len(),
        keys.contains_key(ActionKey::OpenInv) && keys[ActionKey::OpenInv],
    ) {
        movement_keys_released(keys)
    } else {
        keys
    }
}

/// Whether `key` is recorded as held in `keys`.
pub open spec fn key_held(keys: Map<ActionKey, bool>, key: ActionKey) -> bool {
    keys.contains_key(key) && keys[key]
}

/// The nanoseconds from `released` to `now`, 0 when the clock went back.
pub open spec fn gap_since(now: u64, released: u64) -> u64 {
    if now >= released {
        (now - released) as u64
    } else {
        0u64
    }
}

/// Flying, wanting to fly, and the times jump was last pressed and
/// released, after one tick of the jump key (`jump_down`) at `now`: a press
/// after a release that makes a double tap toggles flight when the game mode
/// lets the player fly but does not make it fly always.
pub open spec fn spec_jump_step(
    flying: bool,
    want_to_fly: bool,
    pressed: Option<u64>,
    released: Option<u64>,
    jump_down: bool,
    now: u64,
    double_jump_ms: u64,
    can_fly: bool,
    always_fly: bool,
) -> (bool, bool, Option<u64>, Option<u64>) {
    if jump_down {
        if pressed is None {
            let toggle = released matches Some(r) && spec_is_double_tap(
                gap_since(now, r),
                double_jump_ms,
            ) && can_fly && !always_fly;
            if toggle {
                (!flying, !flying, Some(now), released)
            } else {
                (flying, want_to_fly, Some(now), released)
            }
        } else {
            (flying, want_to_fly, pressed, released)
        }
    } else if pressed is Some {
        (flying, want_to_fly, None, Some(now))
    } else {
        (flying, want_to_fly, pressed, released)
    }
}

/// The movement state of the local player: the keys recorded, and what
/// jumping and flying decide.
/// Times are nanoseconds on a monotonic clock.
pub struct PlayerMovement {
    pub flying: bool,
    pub want_to_fly: bool,
    pub when_last_jump_pressed: Option<u64>,
    pub when_last_jump_released: Option<u64>,
    pub did_touch_ground: bool,
    pub pressed_keys: PressedKeys,
}

impl PlayerMovement {
    /// A player on foot who has not jumped yet.
    pub fn new() -> (m: PlayerMovement)
        ensures
            !m.flying,
            !m.want_to_fly,
            m.when_last_jump_pressed is None,
            m.when_last_jump_released is None,
            !m.did_touch_ground,
            m.pressed_keys.wf(),
            m.pressed_keys@ == Map::<ActionKey, bool>::empty(),
    {
        PlayerMovement {
            flying: false,
            want_to_fly: false,
            when_last_jump_pressed: None,
            when_last_jump_released: None,
            did_touch_ground: false,
            pressed_keys: PressedKeys::new(),
        }
    }

    /// One tick of the jump key at time `now`: a press that follows a
    /// release closely enough (a double tap) toggles flight, when the game
    /// mode lets the player fly but does not make it fly always.
    pub fn update_jump(
        &mut self,
        jump_down: bool,
        now: u64,
        double_jump_ms: u64,
        can_fly: bool,
        always_fly: bool,
    )
        ensures
            final(self).did_touch_ground == old(self).did_touch_ground,
            final(self).pressed_keys == old(self).pressed_keys,
            (
                final(self).flying,
                final(self).want_to_fly,
                final(self).when_last_jump_pressed,
                final(self).when_last_jump_released,
            ) == spec_jump_step(
                old(self).flying,
                old(self).want_to_fly,
                old(self).when_last_jump_pressed,
                old(self).when_last_jump_released,
                jump_down,
                now,
                double_jump_ms,
                can_fly,
                always_fly,
            ),
            jump_down && old(self).when_last_jump_pressed is None ==> {
                &&& final(self).when_last_jump_pressed == Some(now)
                &&& final(self).when_last_jump_released == old(self).when_last_jump_released
                &&& if old(self).when_last_jump_released matches Some(released)
                    && spec_is_double_tap(
                    if now >= released {
                        (now - released) as u64
                    } else {
                        0u64
                    },
                    double_jump_ms,
                ) && can_fly && !always_fly {
                    final(self).flying == !old(self).flying && final(self).want_to_fly
                        == final(self).flying
                } else {
                    final(self).flying == old(self).flying && final(self).want_to_fly == old(
                        self,
                    ).want_to_fly
                }
            },
            jump_down && old(self).when_last_jump_pressed is Some ==> *final(self) == *old(self),
            !jump_down && old(self).when_last_jump_pressed is Some ==> {
                &&& final(self).when_last_jump_released == Some(now)
                &&& final(self).when_last_jump_pressed is None
                &&& final(self).flying == old(self).flying
                &&& final(self).want_to_fly == old(self).want_to_fly
            },
            !jump_down && old(self).when_last_jump_pressed is None ==> *final(self) == *old(self),
    {
        if jump_down {
            if self.when_last_jump_pressed.is_none() {
                self.when_last_jump_pressed = Some(now);
                if let Some(released) = self.when_last_jump_released {
                    let gap = now.saturating_sub(released);
                    if gap < 1_000_000_000 && gap / 1_000_000 <= double_jump_ms {
                        if can_fly && !always_fly {
                            self.flying = !self.flying;
                            self.want_to_fly = self.flying;
                        }
                    }
                }
            }
        } else if self.when_last_jump_pressed.is_some() {
            self.when_last_jump_released = Some(now);
            self.when_last_jump_pressed = None;
        }
    }

    /// Lets go of the movement keys while the game is not in front (a menu
    /// is open), when `should_release_keys` decides so from the recorded
    /// keys.
    pub fn release_keys_outside_game(&mut self, in_game: bool)
        requires
            old(self).pressed_keys.wf(),
        ensures
            final(self).pressed_keys.wf(),
            final(self).pressed_keys@ == keys_after_release(old(self).pressed_keys@, in_game),
            final(self).flying == old(self).flying,
            final(self).want_to_fly == old(self).want_to_fly,
            final(self).when_last_jump_pressed == old(self).when_last_jump_pressed,
            final(self).when_last_jump_released == old(self).when_last_jump_released,
            final(self).did_touch_ground == old(self).did_touch_ground,
    {
        let recorded = self.pressed_keys.len();
        let inv_held = self.pressed_keys.is_pressed(ActionKey::OpenInv);
        if should_release_keys(in_game, recorded, inv_held) {
            self.pressed_keys.release_movement_keys();
        }
    }

    /// One tick of the local player's movement decisions, in order: whether
    /// it loses or gains gravity is decided from whether it flew before the
    /// tick (returned as `(remove, add)`); a game mode that always flies
    /// makes it fly; outside the game the movement keys are let go; then the
    /// jump key, as it is now held, may toggle flight.
    pub fn movement_step(
        &mut self,
        has_gravity: bool,
        in_game: bool,
        now: u64,
        double_jump_ms: u64,
        can_fly: bool,
        always_fly: bool,
    ) -> (r: (bool, bool))
        requires
            old(self).pressed_keys.wf(),
        ensures
            r == (old(self).flying && has_gravity, !old(self).flying && !has_gravity),
            final(self).pressed_keys.wf(),
            final(self).pressed_keys@ == keys_after_release(old(self).pressed_keys@, in_game),
            (
                final(self).flying,
                final(self).want_to_fly,
                final(self).when_last_jump_pressed,
                final(self).when_last_jump_released,
            ) == spec_jump_step(
                old(self).flying || always_fly,
                old(self).want_to_fly,
                old(self).when_last_jump_pressed,
                old(self).when_last_jump_released,
                key_held(final(self).pressed_keys@, ActionKey::Jump),
                now,
                double_jump_ms,
                can_fly,
                always_fly,
            ),
            final(self).did_touch_ground == old(self).did_touch_ground,
    {
        let gravity = gravity_change(self.flying, has_gravity);
        self.flying = self.flying || always_fly;
        self.release_keys_outside_game(in_game);
        let jump_down = self.pressed_keys.is_pressed(ActionKey::Jump);
        self.update_jump(jump_down, now, double_jump_ms, can_fly, always_fly);
        gravity
    }
}

/// Whether the held movement keys are to be let go: outside the game, when
/// more than one key is recorded, or one while the inventory key is not
/// held.
pub open spec fn spec_should_release(in_game: bool, recorded_keys: nat, open_inventory_held: bool) -> bool {
    !in_game && (recorded_keys > 1 || (recorded_keys == 1 && !open_inventory_held))
}

/// Whether the held movement keys are to be let go because the game is not
/// in front (a menu is open): when more than one key is recorded, or one
/// that is not the inventory key held down.
pub fn should_release_keys(in_game: bool, recorded_keys: usize, open_inventory_held: bool) -> (r:
    bool)
    ensures
        r == spec_should_release(in_game, recorded_keys as nat, open_inventory_held),
{
    !in_game && (recorded_keys > 1 || (recorded_keys == 1 && !open_inventory_held))
}

/// Whether a player must lose gravity (it started flying) or gain it (it
/// stopped): `(remove, add)`.
pub fn gravity_change(flying: bool, has_gravity: bool) -> (r: (bool, bool))
    ensures
        r == (flying && has_gravity, !flying && !has_gravity),
{
    (flying && has_gravity, !flying && !has_gravity)
}

/// The text of an optional string.
pub open spec fn opt_text(s: Option<&str>) -> Option<Seq<char>> {
    match s {
        Some(t) => Some(t@),
        None => None,
    }
}

/// Whether a player's skin changes: the new skin address differs from the
/// current one (so the model is to be rebuilt).
pub fn skin_changed(current: Option<&str>, new: Option<&str>) -> (r: bool)
    ensures
        r == (opt_text(current) != opt_text(new)),
{
    match (current, new) {
        (Some(a), Some(b)) => !crate::text::str_equals(a, b),
        (None, None) => false,
        _ => true,
    }
}

/// The movement keys: back, forward, right, left, jump, sneak and sprint.
pub open spec fn is_movement_key(key: ActionKey) -> bool {
    key == ActionKey::Backward || key == ActionKey::Forward || key == ActionKey::Right || key
        == ActionKey::Left || key == ActionKey::Jump || key == ActionKey::Sneak || key
        == ActionKey::Sprint
}

/// Letting go of the movement keys records each of them as not held, and
/// leaves every other key as it was.
pub proof fn law_release_lets_go_of_movement_keys_only(keys: Map<ActionKey, bool>, key: ActionKey)
    ensures
        is_movement_key(key) ==> movement_keys_released(keys).contains_key(key)
            && !movement_keys_released(keys)[key],
        !is_movement_key(key) ==> movement_keys_released(keys).contains_key(key)
            == keys.contains_key(key) && (keys.contains_key(key) ==> movement_keys_released(
            keys,
        )[key] == keys[key]),
        !key_held(movement_keys_released(keys), ActionKey::Sneak),
        key_held(movement_keys_released(keys), ActionKey::OpenInv) == key_held(
            keys,
            ActionKey::OpenInv,
        ),
{
}

} // verus!
