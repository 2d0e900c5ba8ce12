# Loadout

Loadout manages a local environment from explicit desired state: it knows which links and copies it
owns, plans what has to change, and recovers from an interrupted change by what it finds on disk.

`src/` is the library. Every rule of it carries a contract that Verus proves.

- `domain/`: paths, desired and recorded resources, planned actions with their conditions, plans.
- `state/`: what is on record of an operation and its actions.
- `application/`: which executor call an action needs, what a failed call means, the recovery of an
  open operation, the execution of a plan, an apply from the lock to its end, and the queries.
- `declaration/`: the runtime configuration.
- `authoring/`: the edit of a configuration document, the selection of a configuration, and the
  creation of a new bundle.
- `cli/`: the commands, and what they write of previews, questions, results and errors. The help
  on the arguments, and the report of an output that cannot be written, come from `app/`.

Nothing in the library touches a file, the state or a terminal. Whatever needs them is a session: it
says what it needs next, takes the answer, and ends with a result. Its contract says which request
follows which answer, and public proof functions state what holds of every run, such as that nothing
is executed before it is confirmed and on record, and that a file is replaced only after every check.

`app/` answers the requests: it reads the arguments, calls the file system and writes the output. The
collaborators that resolve declarations, keep the state and touch managed targets stand behind one
trait there. `tests/` runs the library on concrete values, with file systems held in memory.
