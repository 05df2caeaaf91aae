use vstd::prelude::*;

use crate::mass_effect_3::appearance::HeadMorph as HeadMorphData;

verus! {

/// An event of the head morph panel.
pub enum Msg {
    /// The user asked to import a head morph file.
    Import,
    /// A head morph was read from the chosen file.
    HeadMorphImported(HeadMorphData),
    /// The user asked to export the head morph.
    Export,
    /// The user asked to remove the head morph.
    RemoveHeadMorph,
}

/// What the head morph panel asks the save handler to do.
pub enum Command {
    /// Ask for a file and read a head morph from it.
    ImportFile,
    /// Ask for a file and write the current head morph to it.
    ExportFile,
}

/// The head morph panel.
pub struct HeadMorph;

impl HeadMorph {
    /// Handles an event of the panel and says whether to redraw it and
    /// what to ask of the save handler.
    pub fn update(&mut self, head_morph: &mut Option<HeadMorphData>, msg: Msg) -> (res: (bool, Vec<Command>))
        ensures
            match msg {
                Msg::Import => !res.0 && res.1@.len() == 1 && res.1@[0] is ImportFile && *final(head_morph) == *old(head_morph),
                Msg::HeadMorphImported(imported) => res.0 && res.1@.len() == 0 && *final(head_morph) == Some(imported),
                Msg::Export => {
                    &&& !res.0 && *final(head_morph) == *old(head_morph)
                    &&& if old(head_morph).is_some() {
                        res.1@.len() == 1 && res.1@[0] is ExportFile
                    } else {
                        res.1@.len() == 0
                    }
                },
                Msg::RemoveHeadMorph => res.0 && res.1@.len() == 0 && *final(head_morph) is None,
            },
    {
        let mut commands: Vec<Command> = Vec::new();
        match msg {
            Msg::Import => {
                commands.push(Command::ImportFile);
                (false, commands)
            },
            Msg::HeadMorphImported(imported) => {
                *head_morph = Some(imported);
                (true, commands)
            },
            Msg::Export => {
                if head_morph.is_some() {
                    commands.push(Command::ExportFile);
                }
                (false, commands)
            },
            Msg::RemoveHeadMorph => {
                *head_morph = None;
                (true, commands)
            },
        }
    }
}

} // verus!
