//! The stored settings of one display and the compositor commands that
//! restore them.
use vstd::prelude::*;
use crate::output::Output;
use crate::text::{int_text, join, joined, nat_text, push_int_text, push_nat_text, texts_of};

verus! {

/// Scale values within this many thousandths of 1 are taken as unscaled.
pub const SCALE_TOLERANCE_MILLI: i64 = 10;

/// What is stored for one display. A field is `None` where nothing is
/// recorded for it; such a field adds nothing to the restoring command.
#[derive(Clone, Debug)]
pub struct OutputProperties {
    pub active: Option<bool>,
    /// Width and height.
    pub resolution: Option<(i32, i32)>,
    /// Horizontal and vertical offset in the layout.
    pub position: Option<(i32, i32)>,
    /// A transform other than `normal`.
    pub rotation: Option<String>,
    /// The scale in thousandths, where it is not 1.
    pub scale_milli: Option<i64>,
    pub refresh_rate: Option<i32>,
    /// The workspaces assigned to the display, in order; never an empty list.
    pub workspaces: Option<Vec<String>>,
}

/// The value of an `OutputProperties`, with texts in place of strings.
pub struct PropertiesView {
    pub active: Option<bool>,
    pub resolution: Option<(i32, i32)>,
    pub position: Option<(i32, i32)>,
    pub rotation: Option<Seq<char>>,
    pub scale_milli: Option<i64>,
    pub refresh_rate: Option<i32>,
    pub workspaces: Option<Seq<Seq<char>>>,
}

impl View for OutputProperties {
    type V = PropertiesView;

    open spec fn view(&self) -> PropertiesView {
        PropertiesView {
            active: self.active,
            resolution: self.resolution,
            position: self.position,
            rotation: match self.rotation {
                Some(t) => Some(t@),
                None => None,
            },
            scale_milli: self.scale_milli,
            refresh_rate: self.refresh_rate,
            workspaces: match self.workspaces {
                Some(w) => Some(texts_of(w@)),
                None => None,
            },
        }
    }
}

/// Whether a scale in thousandths differs from 1 by more than the tolerance.
pub open spec fn is_scaled(milli: int) -> bool {
    milli - 1000 > SCALE_TOLERANCE_MILLI || 1000 - milli > SCALE_TOLERANCE_MILLI
}

/// What is recorded of a display: whether it is active always; its size and
/// offset where either coordinate is above zero; its transform where that is
/// not `normal`; its scale where that is not 1; the refresh rate of its mode
/// where there is one. No workspaces.
pub open spec fn captured(o: Output) -> PropertiesView {
    PropertiesView {
        active: Some(o.active),
        resolution: if o.rect.width > 0 || o.rect.height > 0 {
            Some((o.rect.width, o.rect.height))
        } else {
            None
        },
        position: if o.rect.x > 0 || o.rect.y > 0 {
            Some((o.rect.x, o.rect.y))
        } else {
            None
        },
        rotation: match o.transform {
            Some(t) => if t@ != "normal"@ {
                Some(t@)
            } else {
                None
            },
            None => None,
        },
        scale_milli: match o.scale_milli {
            Some(m) => if is_scaled(m as int) {
                Some(m)
            } else {
                None
            },
            None => None,
        },
        refresh_rate: o.refresh,
        workspaces: None,
    }
}

/// The three-digit fraction `f` (between 1 and 999 thousandths) without
/// trailing zeros.
pub open spec fn fraction_text(f: nat) -> Seq<char> {
    if f % 100 == 0 {
        nat_text(f / 100)
    } else if f % 10 == 0 {
        nat_text(f / 100) + nat_text((f / 10) % 10)
    } else {
        nat_text(f / 100) + nat_text((f / 10) % 10) + nat_text(f % 10)
    }
}

/// The shortest decimal text of `milli` thousandths: `1.5`, `2`, `-0.25`.
pub open spec fn decimal_text(milli: int) -> Seq<char> {
    let sign = if milli < 0 {
        seq!['-']
    } else {
        Seq::empty()
    };
    let magnitude = if milli < 0 {
        -milli
    } else {
        milli
    };
    let whole = sign + nat_text((magnitude / 1000) as nat);
    if magnitude % 1000 == 0 {
        whole
    } else {
        whole + "."@ + fraction_text((magnitude % 1000) as nat)
    }
}

/// The scale clause's number: its decimal text, padded on the left with a
/// space to a width of two.
pub open spec fn scale_text(milli: int) -> Seq<char> {
    if decimal_text(milli).len() < 2 {
        " "@ + decimal_text(milli)
    } else {
        decimal_text(milli)
    }
}

pub open spec fn active_clause(p: PropertiesView) -> Seq<char> {
    match p.active {
        Some(true) => " enable"@,
        Some(false) => " disable"@,
        None => Seq::empty(),
    }
}

pub open spec fn mode_clause(p: PropertiesView) -> Seq<char> {
    match (p.resolution, p.refresh_rate) {
        (Some((w, h)), Some(hz)) => " mode "@ + int_text(w as int) + "x"@ + int_text(h as int)
            + "@"@ + int_text(hz as int) + "Hz"@,
        (Some((w, h)), None) => " res "@ + int_text(w as int) + "x"@ + int_text(h as int),
        _ => Seq::empty(),
    }
}

pub open spec fn position_clause(p: PropertiesView) -> Seq<char> {
    match p.position {
        Some((x, y)) => " pos "@ + int_text(x as int) + " "@ + int_text(y as int),
        None => Seq::empty(),
    }
}

pub open spec fn rotation_clause(p: PropertiesView) -> Seq<char> {
    match p.rotation {
        Some(t) => " transform "@ + t,
        None => Seq::empty(),
    }
}

pub open spec fn scale_clause(p: PropertiesView) -> Seq<char> {
    match p.scale_milli {
        Some(m) => " scale "@ + scale_text(m as int),
        None => Seq::empty(),
    }
}

/// The command that sets up the display named `name`: enabling or disabling,
/// then mode or resolution, offset, transform and scale, each only where it
/// is recorded.
pub open spec fn output_command(p: PropertiesView, name: Seq<char>) -> Seq<char> {
    "output "@ + name + active_clause(p) + mode_clause(p) + position_clause(p) + rotation_clause(p)
        + scale_clause(p)
}

/// The command that assigns workspace `w` to the display named `name`.
pub open spec fn assign_command(w: Seq<char>, name: Seq<char>) -> Seq<char> {
    "workspace "@ + w + " output "@ + name
}

/// The commands that assign the recorded workspaces to the display named
/// `name`, joined by `;`; empty where none are recorded.
pub open spec fn workspace_command(p: PropertiesView, name: Seq<char>) -> Seq<char> {
    match p.workspaces {
        Some(ws) => joined(ws.map_values(|w: Seq<char>| assign_command(w, name)), ";"@),
        None => Seq::empty(),
    }
}

fn push_fraction_text(s: &mut String, f: u64)
    requires
        0 < f < 1000,
    ensures
        final(s)@ == old(s)@ + fraction_text(f as nat),
{
    push_nat_text(s, f / 100);
    if f % 100 != 0 {
        push_nat_text(s, (f / 10) % 10);
        if f % 10 != 0 {
            push_nat_text(s, f % 10);
        }
    }
    assert(final(s)@ =~= old(s)@ + fraction_text(f as nat));
}

fn decimal_string(milli: i64) -> (r: String)
    ensures
        r@ == decimal_text(milli as int),
{
    let mut r = String::new();
    let magnitude: u64 = if milli < 0 {
        r.append("-");
        if milli == i64::MIN {
            9223372036854775808u64
        } else {
            (-milli) as u64
        }
    } else {
        milli as u64
    };
    proof {
        reveal_strlit("-");
    }
    push_nat_text(&mut r, magnitude / 1000);
    if magnitude % 1000 != 0 {
        r.append(".");
        push_fraction_text(&mut r, magnitude % 1000);
    }
    assert(r@ =~= decimal_text(milli as int));
    r
}

impl OutputProperties {
    /// What is recorded of the display `output`.
    pub fn from_output(output: &Output) -> (r: OutputProperties)
        ensures
            r@ == captured(*output),
    {
        let rect = output.rect;
        let rotation = match &output.transform {
            Some(t) => {
                let normal = String::from_str("normal");
                if *t != normal {
                    Some(t.clone())
                } else {
                    None
                }
            },
            None => None,
        };
        let scale_milli = match output.scale_milli {
            Some(m) => {
                if (m as i128) - 1000 > SCALE_TOLERANCE_MILLI as i128 || 1000 - (m as i128)
                    > SCALE_TOLERANCE_MILLI as i128 {
                    Some(m)
                } else {
                    None
                }
            },
            None => None,
        };
        OutputProperties {
            active: Some(output.active),
            resolution: if rect.width > 0 || rect.height > 0 {
                Some((rect.width, rect.height))
            } else {
                None
            },
            position: if rect.x > 0 || rect.y > 0 {
                Some((rect.x, rect.y))
            } else {
                None
            },
            rotation,
            scale_milli,
            refresh_rate: output.refresh,
            workspaces: None,
        }
    }

    fn push_active_clause(&self, command: &mut String)
        ensures
            final(command)@ == old(command)@ + active_clause(self@),
    {
        match self.active {
            Some(true) => command.append(" enable"),
            Some(false) => command.append(" disable"),
            None => {},
        }
        assert(final(command)@ =~= old(command)@ + active_clause(self@));
    }

    fn push_mode_clause(&self, command: &mut String)
        ensures
            final(command)@ == old(command)@ + mode_clause(self@),
    {
        match (self.resolution, self.refresh_rate) {
            (Some((w, h)), Some(hz)) => {
                command.append(" mode ");
                push_int_text(command, w as i64);
                command.append("x");
                push_int_text(command, h as i64);
                command.append("@");
                push_int_text(command, hz as i64);
                command.append("Hz");
            },
            (Some((w, h)), None) => {
                command.append(" res ");
                push_int_text(command, w as i64);
                command.append("x");
                push_int_text(command, h as i64);
            },
            _ => {},
        }
        assert(final(command)@ =~= old(command)@ + mode_clause(self@));
    }

    fn push_position_clause(&self, command: &mut String)
        ensures
            final(command)@ == old(command)@ + position_clause(self@),
    {
        if let Some((x, y)) = self.position {
            command.append(" pos ");
            push_int_text(command, x as i64);
            command.append(" ");
            push_int_text(command, y as i64);
        }
        assert(final(command)@ =~= old(command)@ + position_clause(self@));
    }

    fn push_rotation_clause(&self, command: &mut String)
        ensures
            final(command)@ == old(command)@ + rotation_clause(self@),
    {
        if let Some(t) = &self.rotation {
            command.append(" transform ");
            command.append(t.as_str());
        }
        assert(final(command)@ =~= old(command)@ + rotation_clause(self@));
    }

    fn push_scale_clause(&self, command: &mut String)
        ensures
            final(command)@ == old(command)@ + scale_clause(self@),
    {
        if let Some(m) = self.scale_milli {
            command.append(" scale ");
            let number = decimal_string(m);
            if number.as_str().unicode_len() < 2 {
                command.append(" ");
            }
            command.append(number.as_str());
        }
        assert(final(command)@ =~= old(command)@ + scale_clause(self@));
    }

    /// The command that sets up the display named `connection_name` as
    /// recorded.
    pub fn to_sway_output_command(&self, connection_name: &String) -> (r: String)
        ensures
            r@ == output_command(self@, connection_name@),
    {
        let mut command = String::from_str("output ");
        command.append(connection_name.as_str());
        self.push_active_clause(&mut command);
        self.push_mode_clause(&mut command);
        self.push_position_clause(&mut command);
        self.push_rotation_clause(&mut command);
        self.push_scale_clause(&mut command);
        assert(command@ =~= output_command(self@, connection_name@));
        command
    }

    /// The commands that assign the recorded workspaces to the display named
    /// `connection_name`, joined by `;`.
    pub fn to_sway_workspace_command(&self, connection_name: &String) -> (r: String)
        ensures
            r@ == workspace_command(self@, connection_name@),
    {
        let mut commands: Vec<String> = Vec::new();
        if let Some(workspaces) = &self.workspaces {
            let mut i: usize = 0;
            while i < workspaces.len()
                invariant
                    i <= workspaces.len(),
                    texts_of(commands@) =~= texts_of(workspaces@.take(i as int)).map_values(
                        |w: Seq<char>| assign_command(w, connection_name@),
                    ),
                decreases workspaces.len() - i,
            {
                let mut command = String::from_str("workspace ");
                command.append(workspaces[i].as_str());
                command.append(" output ");
                command.append(connection_name.as_str());
                let ghost before = commands@;
                commands.push(command);
                proof {
                    assert(texts_of(commands@) =~= texts_of(before).push(command@));
                    assert(workspaces@.take(i + 1) =~= workspaces@.take(i as int).push(
                        workspaces@[i as int],
                    ));
                }
                i = i + 1;
            }
            assert(workspaces@.take(workspaces.len() as int) =~= workspaces@);
        }
        join(&commands, ";")
    }
}


/// A setting that is at its default when captured is not recorded, and so
/// adds no clause to the output command: a scale within the tolerance of 1, a
/// `normal` or missing transform, an offset with no coordinate above zero, and
/// a size with no coordinate above zero.
pub proof fn lemma_defaults_omitted(o: Output, name: Seq<char>)
    ensures
        (o.scale_milli is None || !is_scaled(o.scale_milli->0 as int)) ==> captured(o).scale_milli
            is None && scale_clause(captured(o)) == Seq::<char>::empty(),
        (o.transform is None || o.transform->0@ == "normal"@) ==> captured(o).rotation is None
            && rotation_clause(captured(o)) == Seq::<char>::empty(),
        (o.rect.x <= 0 && o.rect.y <= 0) ==> captured(o).position is None && position_clause(
            captured(o),
        ) == Seq::<char>::empty(),
        (o.rect.width <= 0 && o.rect.height <= 0) ==> captured(o).resolution is None
            && mode_clause(captured(o)) == Seq::<char>::empty(),
        output_command(captured(o), name) == "output "@ + name + active_clause(captured(o))
            + mode_clause(captured(o)) + position_clause(captured(o)) + rotation_clause(
            captured(o),
        ) + scale_clause(captured(o)),
{
}

} // verus!
