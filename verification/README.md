# control_flow

A library for turning requests into tickets and plans, verified with Verus.

- Tickets (`ticket`) carry content-derived identifiers and live in a
  dependency graph whose operations keep it free of cycles; projects group
  tickets, and a project index maps project names to their files.
- The terminal interface is decided in `nav`, `screens`, `frame`,
  `ticket_actions` and `project_screens`: each key, menu entry or finished
  task maps the current screen to the next one and to what should be shown.
- Stories and planning sessions (`story`, `mock`, `engines`, `qa`, `planner`,
  `tree_view`, `adventure`, `saves`) cover the story graphs, the built-in
  stories, what the language-model engines send and how their replies are
  read, the question-and-answer planning session, and the menus of the
  planning programs.

`src/` is the verified library. `app/` holds what stays outside it: reading
and writing project files and the index, the JSON forms of the ticket types,
reading engine settings from the environment, the engines' error type, a
planning session driven by a story engine (`qa_engine`) and the planning
adventure played on a terminal (`adventure`).
