//! What a game starts with: the tanks, the two maps, and the walls around
//! the arena.

use crate::game::ecs::Entity;
use crate::game::ecs::npc::{npc, spec_npc};
use crate::game::ecs::prefabs::items::{heal_item, spec_heal_item};
use crate::game::ecs::prefabs::player::{player, spec_player};
use crate::game::ecs::prefabs::wall::{spec_wall, wall};
use crate::game::graphics::{black, Color};
use crate::game::server::{
    spec_client_views, spec_sent, spec_spawned, Server, ServerView, CLIENT_COUNT, NPC_INPUT_DEVICE,
    PLAYER1_HANDLE, PLAYER2_HANDLE,
};
use crate::misc::scalar::{spec_whole, whole, Scalar};
use crate::net::event::{Event, EventView, Handle};
use crate::net::protocol::Protocol;
use vstd::prelude::*;

verus! {

/// The color of the tank on an input device: red for the first client, blue
/// for the second, cyan for the self-steering tank.
pub open spec fn spec_client_color(input_device_index: usize) -> Color {
    if input_device_index == 0 {
        Color { r: 255, g: 0, b: 0, a: 255 }
    } else if input_device_index == 1 {
        Color { r: 0, g: 0, b: 255, a: 255 }
    } else {
        Color { r: 0, g: 255, b: 255, a: 255 }
    }
}

/// The color of the tank on an input device.
pub fn client_color(input_device_index: usize) -> (color: Color)
    ensures
        color == spec_client_color(input_device_index),
{
    if input_device_index == 0 {
        Color::new(255, 0, 0, 255)
    } else if input_device_index == 1 {
        Color::new(0, 0, 255, 255)
    } else {
        Color::new(0, 255, 255, 255)
    }
}

/// The color of the walls of the second map: brown.
pub open spec fn spec_brown() -> Color {
    Color { r: 102, g: 76, b: 51, a: 255 }
}

/// The color of the walls around the arena: purple.
pub open spec fn spec_purple() -> Color {
    Color { r: 178, g: 0, b: 178, a: 255 }
}

/// The color of the walls of the first map: black.
pub open spec fn spec_black() -> Color {
    Color { r: 0, g: 0, b: 0, a: 255 }
}

/// Where a client's tank enters the world, and which way it faces: the
/// first client's on the right facing left, the second's on the left facing
/// right.
pub open spec fn spec_spawn_point(client_index: usize) -> (Scalar, Scalar, Scalar) {
    if client_index == 0 {
        (spec_whole(800), spec_whole(250), spec_whole(180))
    } else {
        (spec_whole(200), spec_whole(250), spec_whole(0))
    }
}

/// The handle of a client's tank.
pub open spec fn spec_player_handle(client_index: usize) -> Handle {
    if client_index == 0 {
        PLAYER1_HANDLE
    } else {
        PLAYER2_HANDLE
    }
}

/// The server after a fresh tank for a client has joined the world. The
/// client is told the handle of its tank at once; the tank's color and the
/// tank itself are announced to everyone with the next broadcast.
pub open spec fn spec_player_spawned<P: Protocol>(
    server: ServerView,
    client_index: usize,
) -> ServerView {
    let handle = spec_player_handle(client_index);
    let point = spec_spawn_point(client_index);
    let color = spec_client_color(client_index);
    spec_spawned(
        ServerView {
            clients: spec_sent::<P>(server.clients, client_index as int, EventView::Yield(handle)),
            events: server.events.push(Event::Color(handle, color)),
            ..server
        },
        spec_player(handle, client_index, point.0, point.1, point.2, color),
    )
}

/// The server after the self-steering tank has joined the world under the
/// next unused handle.
pub open spec fn spec_npc_spawned(
    server: ServerView,
    target_point: (Scalar, Scalar),
) -> ServerView {
    let handle = (server.last_handle + 1) as u64;
    let color = spec_client_color(NPC_INPUT_DEVICE);
    spec_spawned(
        ServerView {
            last_handle: handle,
            events: server.events.push(Event::Color(handle, color)),
            ..server
        },
        spec_npc(
            handle,
            NPC_INPUT_DEVICE,
            spec_whole(500),
            spec_whole(250),
            spec_whole(0),
            color,
            target_point,
        ),
    )
}

/// The server after an entity has joined the world under its handle, which
/// is from then on the handle given out last.
pub open spec fn spec_placed(server: ServerView, entity: Entity) -> ServerView {
    ServerView { last_handle: entity.handle, ..spec_spawned(server, entity) }
}

/// The handle that is `offset` past the one given out last.
pub open spec fn spec_handle_after(server: ServerView, offset: int) -> Handle {
    (server.last_handle + offset) as u64
}

/// The server after the first map has been laid out: four healing items
/// around the middle, and a short wall in front of each tank.
pub open spec fn spec_map1(server: ServerView) -> ServerView {
    let a = spec_placed(
        server,
        spec_heal_item(spec_handle_after(server, 1), spec_whole(275), spec_whole(125)),
    );
    let b = spec_placed(
        a,
        spec_heal_item(spec_handle_after(server, 2), spec_whole(275), spec_whole(375)),
    );
    let c = spec_placed(
        b,
        spec_heal_item(spec_handle_after(server, 3), spec_whole(675), spec_whole(125)),
    );
    let d = spec_placed(
        c,
        spec_heal_item(spec_handle_after(server, 4), spec_whole(675), spec_whole(375)),
    );
    let e = spec_placed(
        d,
        spec_wall(
            spec_handle_after(server, 5),
            spec_whole(250),
            spec_whole(200),
            spec_whole(10),
            spec_whole(100),
            spec_black(),
        ),
    );
    spec_placed(
        e,
        spec_wall(
            spec_handle_after(server, 6),
            spec_whole(750),
            spec_whole(200),
            spec_whole(10),
            spec_whole(100),
            spec_black(),
        ),
    )
}

/// The server after the second map has been laid out: four walls around the
/// middle, and a healing item behind each tank.
pub open spec fn spec_map2(server: ServerView) -> ServerView {
    let a = spec_placed(
        server,
        spec_wall(
            spec_handle_after(server, 1),
            spec_whole(400),
            spec_whole(185),
            spec_whole(20),
            spec_whole(150),
            spec_brown(),
        ),
    );
    let b = spec_placed(
        a,
        spec_wall(
            spec_handle_after(server, 2),
            spec_whole(605),
            spec_whole(185),
            spec_whole(20),
            spec_whole(150),
            spec_brown(),
        ),
    );
    let c = spec_placed(
        b,
        spec_wall(
            spec_handle_after(server, 3),
            spec_whole(500),
            spec_whole(100),
            spec_whole(20),
            spec_whole(100),
            spec_brown(),
        ),
    );
    let d = spec_placed(
        c,
        spec_wall(
            spec_handle_after(server, 4),
            spec_whole(500),
            spec_whole(300),
            spec_whole(20),
            spec_whole(100),
            spec_brown(),
        ),
    );
    let e = spec_placed(
        d,
        spec_heal_item(spec_handle_after(server, 5), spec_whole(50), spec_whole(250)),
    );
    spec_placed(e, spec_heal_item(spec_handle_after(server, 6), spec_whole(920), spec_whole(250)))
}

/// The server after the walls around the arena have been put up: the upper
/// one, the lower one, and one on either side.
pub open spec fn spec_border_walls(server: ServerView) -> ServerView {
    let a = spec_placed(
        server,
        spec_wall(
            spec_handle_after(server, 1),
            spec_whole(-10),
            spec_whole(-10),
            spec_whole(1020),
            spec_whole(20),
            spec_purple(),
        ),
    );
    let b = spec_placed(
        a,
        spec_wall(
            spec_handle_after(server, 2),
            spec_whole(-10),
            spec_whole(490),
            spec_whole(1020),
            spec_whole(20),
            spec_purple(),
        ),
    );
    let c = spec_placed(
        b,
        spec_wall(
            spec_handle_after(server, 3),
            spec_whole(-10),
            spec_whole(0),
            spec_whole(20),
            spec_whole(500),
            spec_purple(),
        ),
    );
    spec_placed(
        c,
        spec_wall(
            spec_handle_after(server, 4),
            spec_whole(990),
            spec_whole(0),
            spec_whole(20),
            spec_whole(500),
            spec_purple(),
        ),
    )
}

/// The number of entities that a map consists of.
pub const MAP_ENTITY_COUNT: u64 = 6;

/// The number of walls around the arena.
pub const BORDER_WALL_COUNT: u64 = 4;

impl<PROTOCOL: Protocol> Server<PROTOCOL> {
    /// Adds the self-steering tank to the world, headed for `target_point`.
    pub fn spawn_npc(&mut self, target_point: (Scalar, Scalar))
        requires
            old(self)@.last_handle < u64::MAX,
        ensures
            final(self)@ == spec_npc_spawned(old(self)@, target_point),
    {
        let handle = self.last_handle + 1;
        self.last_handle = handle;
        let color = client_color(NPC_INPUT_DEVICE);
        let npc = npc(handle, NPC_INPUT_DEVICE, whole(500), whole(250), whole(0), color, target_point);
        self.events.push_back(Event::Color(handle, color));
        self.spawn(npc);
    }

    /// Adds a fresh tank for each client to the world.
    pub fn spawn_players(&mut self)
        requires
            old(self)@.well_formed(),
        ensures
            final(self)@ == spec_player_spawned::<PROTOCOL>(
                spec_player_spawned::<PROTOCOL>(old(self)@, 0),
                1,
            ),
            final(self)@.well_formed(),
    {
        self.spawn_player(0);
        self.spawn_player(1);
    }

    /// Adds a fresh tank for a client to the world, and tells the client the
    /// handle of its tank.
    pub fn spawn_player(&mut self, client_index: usize)
        requires
            client_index < CLIENT_COUNT,
            old(self)@.well_formed(),
        ensures
            final(self)@ == spec_player_spawned::<PROTOCOL>(old(self)@, client_index),
            final(self)@.well_formed(),
    {
        let handle = if client_index == 0 {
            PLAYER1_HANDLE
        } else {
            PLAYER2_HANDLE
        };
        let spawn_point = if client_index == 0 {
            (whole(800), whole(250), whole(180))
        } else {
            (whole(200), whole(250), whole(0))
        };
        let color = client_color(client_index);
        let player = player(
            handle,
            client_index,
            spawn_point.0,
            spawn_point.1,
            spawn_point.2,
            color,
        );
        let ghost before = self.clients@;
        self.clients[client_index].send(&Event::Yield(handle));
        proof {
            assert(spec_client_views(self.clients@) =~= spec_sent::<PROTOCOL>(
                spec_client_views(before),
                client_index as int,
                EventView::Yield(handle),
            ));
        }
        self.events.push_back(Event::Color(handle, color));
        self.spawn(player);
    }

    /// Adds an entity to the world under its handle and records the handle
    /// as the one given out last.
    fn place(&mut self, entity: Entity)
        ensures
            final(self)@ == spec_placed(old(self)@, entity),
    {
        self.last_handle = entity.get_handle();
        self.spawn(entity);
    }

    /// Lays out the first map.
    pub fn map1(&mut self)
        requires
            old(self)@.last_handle + MAP_ENTITY_COUNT <= u64::MAX,
        ensures
            final(self)@ == spec_map1(old(self)@),
    {
        let last = self.last_handle;
        self.place(heal_item(last + 1, whole(275), whole(125)));
        self.place(heal_item(last + 2, whole(275), whole(375)));
        self.place(heal_item(last + 3, whole(675), whole(125)));
        self.place(heal_item(last + 4, whole(675), whole(375)));
        self.place(wall(last + 5, whole(250), whole(200), whole(10), whole(100), black()));
        self.place(wall(last + 6, whole(750), whole(200), whole(10), whole(100), black()));
    }

    /// Lays out the second map.
    pub fn map2(&mut self)
        requires
            old(self)@.last_handle + MAP_ENTITY_COUNT <= u64::MAX,
        ensures
            final(self)@ == spec_map2(old(self)@),
    {
        let last = self.last_handle;
        let brown = Color::new(102, 76, 51, 255);
        self.place(wall(last + 1, whole(400), whole(185), whole(20), whole(150), brown));
        self.place(wall(last + 2, whole(605), whole(185), whole(20), whole(150), brown));
        self.place(wall(last + 3, whole(500), whole(100), whole(20), whole(100), brown));
        self.place(wall(last + 4, whole(500), whole(300), whole(20), whole(100), brown));
        self.place(heal_item(last + 5, whole(50), whole(250)));
        self.place(heal_item(last + 6, whole(920), whole(250)));
    }

    /// Puts up the walls around the arena.
    pub fn spawn_border_walls(&mut self)
        requires
            old(self)@.last_handle + BORDER_WALL_COUNT <= u64::MAX,
        ensures
            final(self)@ == spec_border_walls(old(self)@),
    {
        let last = self.last_handle;
        let purple = Color::new(178, 0, 178, 255);
        self.place(wall(last + 1, whole(-10), whole(-10), whole(1020), whole(20), purple));
        self.place(wall(last + 2, whole(-10), whole(490), whole(1020), whole(20), purple));
        self.place(wall(last + 3, whole(-10), whole(0), whole(20), whole(500), purple));
        self.place(wall(last + 4, whole(990), whole(0), whole(20), whole(500), purple));
    }
}

} // verus!
